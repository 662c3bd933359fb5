//! Directory listings: what one listing of a remote directory contributes
//! to the crawl.
//!
//! A listing is a sequence of entries. Entries named ``, `.` or `..` are
//! passed over; each other entry is either a subdirectory, which becomes a
//! new unit of crawl work, or a file, which becomes a download task.

use vstd::prelude::*;
use crate::text::{join, strip_dot_slash, trim_trailing_slashes, without_dot_slash, without_trailing_slashes};

verus! {

/// One entry of a directory listing, as the server sent it. Every field
/// may be missing; a missing `is_dir` has been read as `false`.
#[derive(Debug, PartialEq, Eq)]
pub struct RemoteEntry {
    pub name: Option<String>,
    pub url: Option<String>,
    pub is_dir: bool,
}

#[verifier::ext_equal]
pub struct EntryView {
    pub name: Option<Seq<char>>,
    pub url: Option<Seq<char>>,
    pub is_dir: bool,
}

impl View for RemoteEntry {
    type V = EntryView;

    open spec fn view(&self) -> EntryView {
        EntryView {
            name: match self.name {
                Some(n) => Some(n@),
                None => None,
            },
            url: match self.url {
                Some(u) => Some(u@),
                None => None,
            },
            is_dir: self.is_dir,
        }
    }
}

/// A directory still to be listed: its URL and the relative path of what
/// it contains, which is empty or ends with `/`.
#[derive(Debug, PartialEq, Eq)]
pub struct WorkItem {
    pub url: String,
    pub prefix: String,
}

#[verifier::ext_equal]
pub struct ItemView {
    pub url: Seq<char>,
    pub prefix: Seq<char>,
}

impl View for WorkItem {
    type V = ItemView;

    open spec fn view(&self) -> ItemView {
        ItemView { url: self.url@, prefix: self.prefix@ }
    }
}

/// A file to download: its path relative to the mirror's root and the
/// URL to fetch it from.
#[derive(Debug, PartialEq, Eq)]
pub struct FileTask {
    pub path: String,
    pub url: String,
}

#[verifier::ext_equal]
pub struct TaskView {
    pub path: Seq<char>,
    pub url: Seq<char>,
}

impl View for FileTask {
    type V = TaskView;

    open spec fn view(&self) -> TaskView {
        TaskView { path: self.path@, url: self.url@ }
    }
}

pub open spec fn entry_views(entries: Seq<RemoteEntry>) -> Seq<EntryView> {
    entries.map_values(|e: RemoteEntry| e@)
}

pub open spec fn item_views(items: Seq<WorkItem>) -> Seq<ItemView> {
    items.map_values(|w: WorkItem| w@)
}

pub open spec fn task_views(tasks: Seq<FileTask>) -> Seq<TaskView> {
    tasks.map_values(|t: FileTask| t@)
}

/// The entry's name without trailing slashes; empty when it has none.
pub open spec fn entry_name(e: EntryView) -> Seq<char> {
    without_trailing_slashes(
        match e.name {
            Some(n) => n,
            None => Seq::empty(),
        },
    )
}

/// The entry's link relative to its directory, without a leading `./`;
/// empty when it has none.
pub open spec fn entry_link(e: EntryView) -> Seq<char> {
    without_dot_slash(
        match e.url {
            Some(u) => u,
            None => Seq::empty(),
        },
    )
}

/// Names that stand for no child: the empty name, `.` and `..`.
pub open spec fn is_skipped_name(name: Seq<char>) -> bool {
    name.len() == 0 || name == seq!['.'] || name == seq!['.', '.']
}

/// Whether the crawl passes over the entry.
pub open spec fn is_skipped(e: EntryView) -> bool {
    is_skipped_name(entry_name(e))
}

/// The unit of work for the subdirectory `e` of `dir`.
pub open spec fn child_dir(dir: ItemView, e: EntryView) -> ItemView {
    ItemView { url: dir.url + entry_link(e), prefix: (dir.prefix + entry_name(e)).push('/') }
}

/// The download task for the file `e` of `dir`.
pub open spec fn child_file(dir: ItemView, e: EntryView) -> TaskView {
    TaskView { path: dir.prefix + entry_name(e), url: dir.url + entry_link(e) }
}

/// The subdirectories that the listing `entries` of `dir` yields, in
/// listing order.
pub open spec fn listed_dirs(dir: ItemView, entries: Seq<EntryView>) -> Seq<ItemView>
    decreases entries.len(),
{
    if entries.len() == 0 {
        Seq::empty()
    } else {
        let before = listed_dirs(dir, entries.drop_last());
        let e = entries.last();
        if !is_skipped(e) && e.is_dir {
            before.push(child_dir(dir, e))
        } else {
            before
        }
    }
}

/// The files that the listing `entries` of `dir` yields, in listing order.
pub open spec fn listed_files(dir: ItemView, entries: Seq<EntryView>) -> Seq<TaskView>
    decreases entries.len(),
{
    if entries.len() == 0 {
        Seq::empty()
    } else {
        let before = listed_files(dir, entries.drop_last());
        let e = entries.last();
        if !is_skipped(e) && !e.is_dir {
            before.push(child_file(dir, e))
        } else {
            before
        }
    }
}

impl WorkItem {
    /// A copy with its own strings.
    pub fn duplicate(&self) -> (copy: WorkItem)
        ensures
            copy == *self,
    {
        WorkItem { url: self.url.clone(), prefix: self.prefix.clone() }
    }
}

impl FileTask {
    /// A copy with its own strings.
    pub fn duplicate(&self) -> (copy: FileTask)
        ensures
            copy == *self,
    {
        FileTask { path: self.path.clone(), url: self.url.clone() }
    }
}

/// Whether `name` is empty, `.` or `..`.
pub fn skips_name(name: &str) -> (skip: bool)
    ensures
        skip == is_skipped_name(name@),
{
    let n: usize = name.unicode_len();
    if n == 0 {
        true
    } else if n == 1 {
        let dot = name.get_char(0) == '.';
        assert(dot ==> name@ =~= seq!['.']);
        dot
    } else if n == 2 {
        let dots = name.get_char(0) == '.' && name.get_char(1) == '.';
        assert(dots ==> name@ =~= seq!['.', '.']);
        dots
    } else {
        false
    }
}

/// Sorts the entries of one listing of `dir` into subdirectories to crawl
/// and files to download, each in listing order.
pub fn classify(dir: &WorkItem, entries: &Vec<RemoteEntry>) -> (found: (Vec<WorkItem>, Vec<FileTask>))
    ensures
        item_views(found.0@) == listed_dirs(dir@, entry_views(entries@)),
        task_views(found.1@) == listed_files(dir@, entry_views(entries@)),
{
    let ghost all = entry_views(entries@);
    let mut dirs: Vec<WorkItem> = Vec::new();
    let mut files: Vec<FileTask> = Vec::new();
    let mut i: usize = 0;
    while i < entries.len()
        invariant
            i <= entries.len(),
            all == entry_views(entries@),
            item_views(dirs@) == listed_dirs(dir@, all.take(i as int)),
            task_views(files@) == listed_files(dir@, all.take(i as int)),
        decreases entries.len() - i,
    {
        let entry = &entries[i];
        let ghost e = entry@;
        assert(all.take(i + 1).drop_last() =~= all.take(i as int));
        let name = match &entry.name {
            Some(n) => trim_trailing_slashes(n.as_str()),
            None => String::new(),
        };
        if !skips_name(name.as_str()) {
            let link = match &entry.url {
                Some(u) => strip_dot_slash(u.as_str()),
                None => String::new(),
            };
            let path = join(dir.prefix.as_str(), name.as_str());
            let url = join(dir.url.as_str(), link.as_str());
            if entry.is_dir {
                proof {
                    reveal_strlit("/");
                }
                let prefix = join(path.as_str(), "/");
                let item = WorkItem { url, prefix };
                assert(item@ =~= child_dir(dir@, e));
                dirs.push(item);
            } else {
                let task = FileTask { path, url };
                files.push(task);
            }
        }
        i += 1;
    }
    assert(all.take(i as int) =~= all);
    (dirs, files)
}

} // verus!
