//! What holds of every crawl, whatever the order in which workers claim
//! and complete directories and however many workers there are.

use vstd::prelude::*;
use crate::crawl::{busy, lemma_busy_none, lemma_busy_occupy, lemma_busy_release, CrawlState};
use crate::listing::{
    child_dir, child_file, entry_name, is_skipped, listed_dirs, listed_files, EntryView, ItemView,
    TaskView,
};
use crate::text::with_trailing_slash;

verus! {

/// The counter invariant holds before any work.
pub proof fn law_start_inv(base_url: Seq<char>, workers: nat)
    ensures
        CrawlState::start(base_url, workers).inv(),
{
    lemma_busy_none(CrawlState::start(base_url, workers).slots);
}

/// A claim keeps the counter invariant: the directory only moves from the
/// queue to a worker.
pub proof fn law_claim_inv(s: CrawlState, worker: int)
    requires
        s.inv(),
        s.can_claim(worker),
    ensures
        s.claim(worker).inv(),
        s.claim(worker).in_flight == s.in_flight,
        s.claim(worker).closed == s.closed,
{
    lemma_busy_occupy(s.slots, worker, s.offered());
}

/// A completion keeps the counter invariant.
pub proof fn law_complete_inv(s: CrawlState, worker: int, listing: Option<Seq<EntryView>>)
    requires
        s.inv(),
        s.is_busy(worker),
    ensures
        s.complete(worker, listing).inv(),
        !s.closed,
{
    lemma_busy_release(s.slots, worker);
}

/// The queue is closed exactly when no directory waits and no worker
/// holds one: never while work remains, and at once when none does.
pub proof fn law_closed_iff_drained(s: CrawlState)
    requires
        s.inv(),
    ensures
        s.closed <==> (s.pending.len() == 0 && forall|w: int| !s.is_busy(w)),
{
    lemma_busy_none(s.slots);
    if s.pending.len() == 0 && forall|w: int| !s.is_busy(w) {
        assert forall|w: int| 0 <= w < s.slots.len() implies s.slots[w] is None by {
            assert(!s.is_busy(w));
        }
    }
}

/// A completion closes the queue exactly when it is the last one: nothing
/// waits, no other worker is busy, and it found no subdirectory.
pub proof fn law_last_completion_closes(s: CrawlState, worker: int, listing: Option<Seq<EntryView>>)
    requires
        s.inv(),
        s.is_busy(worker),
    ensures
        s.complete(worker, listing).closed <==> {
            &&& s.pending.len() == 0
            &&& s.found_dirs(worker, listing).len() == 0
            &&& forall|w: int| w != worker ==> !s.is_busy(w)
        },
{
    let after = s.complete(worker, listing);
    law_complete_inv(s, worker, listing);
    law_closed_iff_drained(after);
    if after.closed {
        assert forall|w: int| w != worker implies !s.is_busy(w) by {
            assert(!after.is_busy(w));
        }
    } else if s.pending.len() == 0 && s.found_dirs(worker, listing).len() == 0 && (forall|w: int|
        w != worker ==> !s.is_busy(w)) {
        assert forall|w: int| !after.is_busy(w) by {
            if w != worker {
                assert(!s.is_busy(w));
            }
        }
    }
}

/// Once the queue is closed nothing can be claimed and nothing can be
/// completed, so the queue is closed at most once.
pub proof fn law_closed_is_final(s: CrawlState, worker: int)
    requires
        s.inv(),
        s.closed,
    ensures
        !s.can_claim(worker),
        !s.is_busy(worker),
{
    law_closed_iff_drained(s);
}

/// One move of the crawl: a worker claims the oldest waiting directory, or
/// a worker completes the directory it holds.
pub enum CrawlStep {
    Claim { worker: int },
    Complete { worker: int },
}

/// What listing `dir` gives on `server`, which maps the URL of each
/// directory that can be listed to its entries: a URL that `server` lacks
/// stands for a listing that fails.
pub open spec fn reply(server: Map<Seq<char>, Seq<EntryView>>, dir: ItemView) -> Option<
    Seq<EntryView>,
> {
    if server.contains_key(dir.url) {
        Some(server[dir.url])
    } else {
        None
    }
}

pub open spec fn enabled(s: CrawlState, step: CrawlStep) -> bool {
    match step {
        CrawlStep::Claim { worker } => s.can_claim(worker),
        CrawlStep::Complete { worker } => s.is_busy(worker),
    }
}

pub open spec fn apply(server: Map<Seq<char>, Seq<EntryView>>, s: CrawlState, step: CrawlStep) -> CrawlState {
    match step {
        CrawlStep::Claim { worker } => s.claim(worker),
        CrawlStep::Complete { worker } => s.complete(worker, reply(server, s.slots[worker]->0)),
    }
}

/// The crawl after `steps`, each completion reporting what `server` gives
/// for the completed directory.
pub open spec fn run(
    server: Map<Seq<char>, Seq<EntryView>>,
    start: CrawlState,
    steps: Seq<CrawlStep>,
) -> CrawlState
    decreases steps.len(),
{
    if steps.len() == 0 {
        start
    } else {
        apply(server, run(server, start, steps.drop_last()), steps.last())
    }
}

/// Whether each of `steps` is possible when its turn comes.
pub open spec fn run_valid(
    server: Map<Seq<char>, Seq<EntryView>>,
    start: CrawlState,
    steps: Seq<CrawlStep>,
) -> bool
    decreases steps.len(),
{
    steps.len() == 0 || (run_valid(server, start, steps.drop_last()) && enabled(
        run(server, start, steps.drop_last()),
        steps.last(),
    ))
}

/// A directory as a worker gets it: its URL ends with `/`.
pub open spec fn listable(dir: ItemView) -> ItemView {
    ItemView { url: with_trailing_slash(dir.url), prefix: dir.prefix }
}

/// The root directory of the tree under `base_url`.
pub open spec fn root_dir(base_url: Seq<char>) -> ItemView {
    ItemView { url: base_url.push('/'), prefix: Seq::empty() }
}

/// Whether `child` is a subdirectory that the listing of `parent` yields.
pub open spec fn is_child(server: Map<Seq<char>, Seq<EntryView>>, parent: ItemView, child: ItemView) -> bool {
    match reply(server, parent) {
        Some(entries) => exists|x: ItemView| #[trigger]
            listed_dirs(parent, entries).contains(x) && child == listable(x),
        None => false,
    }
}

/// Whether `file` is a file that the listing of `dir` yields.
pub open spec fn is_file_of(server: Map<Seq<char>, Seq<EntryView>>, dir: ItemView, file: TaskView) -> bool {
    match reply(server, dir) {
        Some(entries) => listed_files(dir, entries).contains(file),
        None => false,
    }
}

/// Whether `chain` leads from `root` down through subdirectories.
pub open spec fn is_chain(server: Map<Seq<char>, Seq<EntryView>>, root: ItemView, chain: Seq<ItemView>) -> bool {
    &&& chain.len() > 0
    &&& chain[0] == root
    &&& forall|i: int| 0 <= i < chain.len() - 1 ==> is_child(server, #[trigger] chain[i], chain[i + 1])
}

/// Whether `dir` lies in the tree under `root`.
pub open spec fn dir_in_tree(server: Map<Seq<char>, Seq<EntryView>>, root: ItemView, dir: ItemView) -> bool {
    exists|chain: Seq<ItemView>| #[trigger] is_chain(server, root, chain) && chain.last() == dir
}

/// Whether `file` is a file of the tree under `root`: of the root or of a
/// directory reached from it through listings that can be had.
pub open spec fn file_in_tree(server: Map<Seq<char>, Seq<EntryView>>, root: ItemView, file: TaskView) -> bool {
    exists|chain: Seq<ItemView>| #[trigger]
        is_chain(server, root, chain) && is_file_of(server, chain.last(), file)
}

/// The directories completed in the course of `steps`.
pub open spec fn completed(
    server: Map<Seq<char>, Seq<EntryView>>,
    start: CrawlState,
    steps: Seq<CrawlStep>,
) -> Set<ItemView>
    decreases steps.len(),
{
    if steps.len() == 0 {
        Set::empty()
    } else {
        let before = completed(server, start, steps.drop_last());
        match steps.last() {
            CrawlStep::Claim { worker } => before,
            CrawlStep::Complete { worker } => before.insert(
                run(server, start, steps.drop_last()).slots[worker]->0,
            ),
        }
    }
}

/// Whether the crawl has `dir` at hand: waiting, held by a worker, or
/// completed.
pub open spec fn known(s: CrawlState, done: Set<ItemView>, dir: ItemView) -> bool {
    ||| exists|i: int| 0 <= i < s.pending.len() && listable(#[trigger] s.pending[i]) == dir
    ||| exists|w: int| s.is_busy(w) && (#[trigger] s.slots[w])->0 == dir
    ||| done.contains(dir)
}

/// Everything the crawl has at hand lies in the tree.
pub open spec fn sound(server: Map<Seq<char>, Seq<EntryView>>, root: ItemView, s: CrawlState) -> bool {
    &&& forall|i: int|
        0 <= i < s.pending.len() ==> dir_in_tree(server, root, listable(#[trigger] s.pending[i]))
    &&& forall|w: int| s.is_busy(w) ==> dir_in_tree(server, root, (#[trigger] s.slots[w])->0)
    &&& forall|f: TaskView| #[trigger] s.files.contains(f) ==> file_in_tree(server, root, f)
}

/// The root is at hand, and of each completed directory the
/// subdirectories are at hand and the files are in the result.
pub open spec fn covered(
    server: Map<Seq<char>, Seq<EntryView>>,
    root: ItemView,
    s: CrawlState,
    done: Set<ItemView>,
) -> bool {
    &&& known(s, done, root)
    &&& forall|d: ItemView, c: ItemView|
        done.contains(d) && #[trigger] is_child(server, d, c) ==> known(s, done, c)
    &&& forall|d: ItemView, f: TaskView|
        done.contains(d) && #[trigger] is_file_of(server, d, f) ==> s.files.contains(f)
}

proof fn lemma_chain_grows(
    server: Map<Seq<char>, Seq<EntryView>>,
    root: ItemView,
    chain: Seq<ItemView>,
    child: ItemView,
)
    requires
        is_chain(server, root, chain),
        is_child(server, chain.last(), child),
    ensures
        is_chain(server, root, chain.push(child)),
        chain.push(child).last() == child,
{
    let longer = chain.push(child);
    assert forall|i: int| 0 <= i < longer.len() - 1 implies is_child(
        server,
        #[trigger] longer[i],
        longer[i + 1],
    ) by {
        if i < chain.len() - 1 {
            assert(is_child(server, chain[i], chain[i + 1]));
        }
    }
}

proof fn lemma_known_after_claim(s: CrawlState, done: Set<ItemView>, worker: int, dir: ItemView)
    requires
        s.can_claim(worker),
        known(s, done, dir),
    ensures
        known(s.claim(worker), done, dir),
{
    let after = s.claim(worker);
    if exists|i: int| 0 <= i < s.pending.len() && listable(#[trigger] s.pending[i]) == dir {
        let i = choose|i: int| 0 <= i < s.pending.len() && listable(#[trigger] s.pending[i]) == dir;
        if i == 0 {
            assert(after.is_busy(worker) && after.slots[worker]->0 == dir);
        } else {
            assert(listable(after.pending[i - 1]) == dir);
        }
    } else if exists|w: int| s.is_busy(w) && (#[trigger] s.slots[w])->0 == dir {
        let w = choose|w: int| s.is_busy(w) && (#[trigger] s.slots[w])->0 == dir;
        assert(after.is_busy(w) && after.slots[w]->0 == dir);
    }
}

proof fn lemma_known_after_complete(
    s: CrawlState,
    done: Set<ItemView>,
    worker: int,
    listing: Option<Seq<EntryView>>,
    dir: ItemView,
)
    requires
        s.is_busy(worker),
        known(s, done, dir),
    ensures
        known(s.complete(worker, listing), done.insert(s.slots[worker]->0), dir),
{
    let after = s.complete(worker, listing);
    if exists|i: int| 0 <= i < s.pending.len() && listable(#[trigger] s.pending[i]) == dir {
        let i = choose|i: int| 0 <= i < s.pending.len() && listable(#[trigger] s.pending[i]) == dir;
        assert(listable(after.pending[i]) == dir);
    } else if exists|w: int| s.is_busy(w) && (#[trigger] s.slots[w])->0 == dir {
        let w = choose|w: int| s.is_busy(w) && (#[trigger] s.slots[w])->0 == dir;
        if w != worker {
            assert(after.is_busy(w) && after.slots[w]->0 == dir);
        }
    }
}

proof fn lemma_claim_keeps(
    server: Map<Seq<char>, Seq<EntryView>>,
    root: ItemView,
    s: CrawlState,
    done: Set<ItemView>,
    worker: int,
)
    requires
        sound(server, root, s),
        covered(server, root, s, done),
        s.can_claim(worker),
    ensures
        sound(server, root, s.claim(worker)),
        covered(server, root, s.claim(worker), done),
{
    let after = s.claim(worker);
    assert forall|i: int| 0 <= i < after.pending.len() implies dir_in_tree(
        server,
        root,
        listable(#[trigger] after.pending[i]),
    ) by {
        assert(after.pending[i] == s.pending[i + 1]);
    }
    assert forall|w: int| after.is_busy(w) implies dir_in_tree(
        server,
        root,
        (#[trigger] after.slots[w])->0,
    ) by {
        if w == worker {
            assert(after.slots[w]->0 == listable(s.pending[0]));
        } else {
            assert(s.is_busy(w) && s.slots[w] == after.slots[w]);
        }
    }
    lemma_known_after_claim(s, done, worker, root);
    assert forall|d: ItemView, c: ItemView| done.contains(d) && #[trigger] is_child(
        server,
        d,
        c,
    ) implies known(after, done, c) by {
        lemma_known_after_claim(s, done, worker, c);
    }
}

proof fn lemma_complete_keeps(
    server: Map<Seq<char>, Seq<EntryView>>,
    root: ItemView,
    s: CrawlState,
    done: Set<ItemView>,
    worker: int,
)
    requires
        sound(server, root, s),
        covered(server, root, s, done),
        s.is_busy(worker),
    ensures
        sound(server, root, s.complete(worker, reply(server, s.slots[worker]->0))),
        covered(
            server,
            root,
            s.complete(worker, reply(server, s.slots[worker]->0)),
            done.insert(s.slots[worker]->0),
        ),
{
    let dir = s.slots[worker]->0;
    let listing = reply(server, dir);
    let after = s.complete(worker, listing);
    let done2 = done.insert(dir);
    let dirs = s.found_dirs(worker, listing);
    let files = s.found_files(worker, listing);
    assert(dir_in_tree(server, root, dir));
    let chain = choose|chain: Seq<ItemView>| #[trigger]
        is_chain(server, root, chain) && chain.last() == dir;

    assert forall|i: int| 0 <= i < after.pending.len() implies dir_in_tree(
        server,
        root,
        listable(#[trigger] after.pending[i]),
    ) by {
        if i < s.pending.len() {
            assert(after.pending[i] == s.pending[i]);
        } else {
            let x = dirs[i - s.pending.len()];
            assert(after.pending[i] == x);
            assert(listed_dirs(dir, listing->0).contains(x));
            assert(is_child(server, dir, listable(x)));
            lemma_chain_grows(server, root, chain, listable(x));
            assert(is_chain(server, root, chain.push(listable(x))));
        }
    }
    assert forall|w: int| after.is_busy(w) implies dir_in_tree(
        server,
        root,
        (#[trigger] after.slots[w])->0,
    ) by {
        assert(w != worker);
        assert(s.is_busy(w) && s.slots[w] == after.slots[w]);
    }
    assert forall|f: TaskView| #[trigger] after.files.contains(f) implies file_in_tree(
        server,
        root,
        f,
    ) by {
        let j = choose|j: int| 0 <= j < after.files.len() && after.files[j] == f;
        if j < s.files.len() {
            assert(s.files[j] == f);
            assert(s.files.contains(f));
        } else {
            assert(files[j - s.files.len()] == f);
            assert(listed_files(dir, listing->0).contains(f));
            assert(is_file_of(server, chain.last(), f));
        }
    }

    lemma_known_after_complete(s, done, worker, listing, root);
    assert forall|d: ItemView, c: ItemView| done2.contains(d) && #[trigger] is_child(
        server,
        d,
        c,
    ) implies known(after, done2, c) by {
        if done.contains(d) {
            lemma_known_after_complete(s, done, worker, listing, c);
        } else {
            let x = choose|x: ItemView| #[trigger]
                listed_dirs(dir, listing->0).contains(x) && c == listable(x);
            let j = choose|j: int| 0 <= j < dirs.len() && dirs[j] == x;
            assert(after.pending[s.pending.len() + j] == x);
            assert(listable(after.pending[s.pending.len() + j]) == c);
        }
    }
    assert forall|d: ItemView, f: TaskView| done2.contains(d) && #[trigger] is_file_of(
        server,
        d,
        f,
    ) implies after.files.contains(f) by {
        if done.contains(d) {
            let j = choose|j: int| 0 <= j < s.files.len() && s.files[j] == f;
            assert(after.files[j] == f);
        } else {
            let j = choose|j: int| 0 <= j < files.len() && files[j] == f;
            assert(after.files[s.files.len() + j] == f);
        }
    }
}

proof fn lemma_run_keeps(
    server: Map<Seq<char>, Seq<EntryView>>,
    base_url: Seq<char>,
    workers: nat,
    steps: Seq<CrawlStep>,
)
    requires
        run_valid(server, CrawlState::start(base_url, workers), steps),
    ensures
        run(server, CrawlState::start(base_url, workers), steps).inv(),
        sound(server, root_dir(base_url), run(server, CrawlState::start(base_url, workers), steps)),
        covered(
            server,
            root_dir(base_url),
            run(server, CrawlState::start(base_url, workers), steps),
            completed(server, CrawlState::start(base_url, workers), steps),
        ),
    decreases steps.len(),
{
    let start = CrawlState::start(base_url, workers);
    let root = root_dir(base_url);
    if steps.len() == 0 {
        law_start_inv(base_url, workers);
        assert(listable(start.pending[0]) =~= root);
        assert(is_chain(server, root, seq![root]));
        assert(seq![root].last() == root);
        assert(dir_in_tree(server, root, root));
        assert(forall|w: int| !start.is_busy(w));
    } else {
        let earlier = steps.drop_last();
        lemma_run_keeps(server, base_url, workers, earlier);
        let s = run(server, start, earlier);
        let done = completed(server, start, earlier);
        match steps.last() {
            CrawlStep::Claim { worker } => {
                law_claim_inv(s, worker);
                lemma_claim_keeps(server, root, s, done, worker);
            },
            CrawlStep::Complete { worker } => {
                law_complete_inv(s, worker, reply(server, s.slots[worker]->0));
                lemma_complete_keeps(server, root, s, done, worker);
            },
        }
    }
}

proof fn lemma_chain_completed(
    server: Map<Seq<char>, Seq<EntryView>>,
    root: ItemView,
    s: CrawlState,
    done: Set<ItemView>,
    chain: Seq<ItemView>,
    upto: int,
)
    requires
        covered(server, root, s, done),
        s.pending.len() == 0,
        forall|w: int| !s.is_busy(w),
        is_chain(server, root, chain),
        0 <= upto < chain.len(),
    ensures
        done.contains(chain[upto]),
    decreases upto,
{
    if upto > 0 {
        lemma_chain_completed(server, root, s, done, chain, upto - 1);
        assert(is_child(server, chain[upto - 1], chain[upto - 1 + 1]));
        assert(known(s, done, chain[upto]));
    }
}

/// Whatever the number of workers and whatever the order in which they
/// claim and complete directories: when the queue has been closed, the
/// files found are exactly the files of the tree under the root, those of
/// directories whose listing could not be had left out with all that
/// lies under them. Only the order of the result depends on the run.
pub proof fn law_crawl_finds_the_tree(
    server: Map<Seq<char>, Seq<EntryView>>,
    base_url: Seq<char>,
    workers: nat,
    steps: Seq<CrawlStep>,
    file: TaskView,
)
    requires
        run_valid(server, CrawlState::start(base_url, workers), steps),
        run(server, CrawlState::start(base_url, workers), steps).closed,
    ensures
        run(server, CrawlState::start(base_url, workers), steps).files.contains(file)
            <==> file_in_tree(server, root_dir(base_url), file),
{
    let start = CrawlState::start(base_url, workers);
    let root = root_dir(base_url);
    let s = run(server, start, steps);
    let done = completed(server, start, steps);
    lemma_run_keeps(server, base_url, workers, steps);
    law_closed_iff_drained(s);
    if file_in_tree(server, root, file) {
        let chain = choose|chain: Seq<ItemView>| #[trigger]
            is_chain(server, root, chain) && is_file_of(server, chain.last(), file);
        lemma_chain_completed(server, root, s, done, chain, chain.len() - 1);
    }
}

/// Two crawls of one server from one base URL find the same files,
/// whatever their numbers of workers and the order of their moves.
pub proof fn law_worker_count_does_not_matter(
    server: Map<Seq<char>, Seq<EntryView>>,
    base_url: Seq<char>,
    workers: nat,
    steps: Seq<CrawlStep>,
    other_workers: nat,
    other_steps: Seq<CrawlStep>,
    file: TaskView,
)
    requires
        run_valid(server, CrawlState::start(base_url, workers), steps),
        run(server, CrawlState::start(base_url, workers), steps).closed,
        run_valid(server, CrawlState::start(base_url, other_workers), other_steps),
        run(server, CrawlState::start(base_url, other_workers), other_steps).closed,
    ensures
        run(server, CrawlState::start(base_url, workers), steps).files.contains(file) <==> run(
            server,
            CrawlState::start(base_url, other_workers),
            other_steps,
        ).files.contains(file),
{
    law_crawl_finds_the_tree(server, base_url, workers, steps, file);
    law_crawl_finds_the_tree(server, base_url, other_workers, other_steps, file);
}

/// While the queue is open and there is a worker, the crawl can move: a
/// worker can claim a directory or a worker holds one to complete. No
/// worker ever waits on another, so the crawl cannot hang.
pub proof fn law_crawl_can_move(s: CrawlState)
    requires
        s.inv(),
        !s.closed,
        s.slots.len() > 0,
    ensures
        exists|w: int| s.can_claim(w) || s.is_busy(w),
{
    lemma_busy_none(s.slots);
    if busy(s.slots) == 0 {
        assert(s.slots[0] is None);
        assert(s.can_claim(0));
    } else {
        let w = choose|w: int| 0 <= w < s.slots.len() && !(s.slots[w] is None);
        assert(s.is_busy(w));
    }
}

/// No more directories are being listed at a time than there are workers.
pub proof fn law_busy_within_pool(slots: Seq<Option<ItemView>>)
    ensures
        busy(slots) <= slots.len(),
    decreases slots.len(),
{
    if slots.len() > 0 {
        law_busy_within_pool(slots.drop_last());
    }
}

/// Whether `name` can be one segment of a relative path: it is not empty,
/// not `.` and not `..`, and holds no `/`.
pub open spec fn is_segment(name: Seq<char>) -> bool {
    name.len() > 0 && name != seq!['.'] && name != seq!['.', '.'] && !name.contains('/')
}

pub open spec fn all_segments(names: Seq<Seq<char>>) -> bool {
    forall|i: int| 0 <= i < names.len() ==> is_segment(#[trigger] names[i])
}

/// The relative path of what lies in the directory reached through
/// `names`: each name followed by `/`.
pub open spec fn dir_path(names: Seq<Seq<char>>) -> Seq<char>
    decreases names.len(),
{
    if names.len() == 0 {
        Seq::empty()
    } else {
        dir_path(names.drop_last()) + names.last() + seq!['/']
    }
}

/// Whether `prefix` is the path prefix of a directory of the mirror: empty
/// for the root, else segments each followed by `/`.
pub open spec fn is_dir_prefix(prefix: Seq<char>) -> bool {
    exists|names: Seq<Seq<char>>| all_segments(names) && prefix == #[trigger] dir_path(names)
}

/// The relative path of the file `name` in the directory reached through
/// `names`.
pub open spec fn file_path(names: Seq<Seq<char>>, name: Seq<char>) -> Seq<char> {
    dir_path(names) + name
}

/// Whether `path` is the relative path of a file of the mirror: segments
/// joined by `/`, none of them empty, `.` or `..`.
pub open spec fn is_file_path(path: Seq<char>) -> bool {
    exists|names: Seq<Seq<char>>, name: Seq<char>|
        all_segments(names) && is_segment(name) && path == #[trigger] file_path(names, name)
}

/// Whether no entry that `server` lists has a `/` inside its name.
pub open spec fn has_plain_names(server: Map<Seq<char>, Seq<EntryView>>) -> bool {
    forall|url: Seq<char>, i: int|
        server.contains_key(url) && 0 <= i < server[url].len() ==> !entry_name(
            #[trigger] server[url][i],
        ).contains('/')
}

/// Each subdirectory that a listing yields comes from an entry of it.
pub proof fn lemma_listed_dir_entry(dir: ItemView, entries: Seq<EntryView>, x: ItemView) -> (i: int)
    requires
        listed_dirs(dir, entries).contains(x),
    ensures
        0 <= i < entries.len(),
        !is_skipped(entries[i]),
        entries[i].is_dir,
        x == child_dir(dir, entries[i]),
    decreases entries.len(),
{
    let before = listed_dirs(dir, entries.drop_last());
    let e = entries.last();
    if !is_skipped(e) && e.is_dir && x == child_dir(dir, e) {
        entries.len() - 1
    } else {
        assert(before.contains(x)) by {
            let j = choose|j: int| 0 <= j < listed_dirs(dir, entries).len() && listed_dirs(
                dir,
                entries,
            )[j] == x;
            if !is_skipped(e) && e.is_dir {
                assert(j < before.len());
            }
            assert(before[j] == x);
        }
        lemma_listed_dir_entry(dir, entries.drop_last(), x)
    }
}

/// Each file that a listing yields comes from an entry of it.
pub proof fn lemma_listed_file_entry(dir: ItemView, entries: Seq<EntryView>, f: TaskView) -> (i: int)
    requires
        listed_files(dir, entries).contains(f),
    ensures
        0 <= i < entries.len(),
        !is_skipped(entries[i]),
        !entries[i].is_dir,
        f == child_file(dir, entries[i]),
    decreases entries.len(),
{
    let before = listed_files(dir, entries.drop_last());
    let e = entries.last();
    if !is_skipped(e) && !e.is_dir && f == child_file(dir, e) {
        entries.len() - 1
    } else {
        assert(before.contains(f)) by {
            let j = choose|j: int| 0 <= j < listed_files(dir, entries).len() && listed_files(
                dir,
                entries,
            )[j] == f;
            if !is_skipped(e) && !e.is_dir {
                assert(j < before.len());
            }
            assert(before[j] == f);
        }
        lemma_listed_file_entry(dir, entries.drop_last(), f)
    }
}

/// An entry that is not passed over and has no `/` inside its name gives
/// a subdirectory and a file whose paths are made of proper segments, if
/// the directory's own path is.
pub proof fn law_children_have_clean_paths(dir: ItemView, e: EntryView)
    requires
        is_dir_prefix(dir.prefix),
        !is_skipped(e),
        !entry_name(e).contains('/'),
    ensures
        is_dir_prefix(child_dir(dir, e).prefix),
        is_file_path(child_file(dir, e).path),
{
    let names = choose|names: Seq<Seq<char>>|
        all_segments(names) && dir.prefix == #[trigger] dir_path(names);
    let name = entry_name(e);
    assert(is_segment(name));
    let longer = names.push(name);
    assert(longer.drop_last() =~= names);
    assert(all_segments(longer));
    assert(dir_path(longer) =~= child_dir(dir, e).prefix);
    assert(child_file(dir, e).path == file_path(names, name));
}

spec fn clean(s: CrawlState) -> bool {
    &&& forall|i: int| 0 <= i < s.pending.len() ==> is_dir_prefix((#[trigger] s.pending[i]).prefix)
    &&& forall|w: int| s.is_busy(w) ==> is_dir_prefix((#[trigger] s.slots[w])->0.prefix)
    &&& forall|i: int| 0 <= i < s.files.len() ==> is_file_path((#[trigger] s.files[i]).path)
}

proof fn lemma_run_stays_clean(
    server: Map<Seq<char>, Seq<EntryView>>,
    base_url: Seq<char>,
    workers: nat,
    steps: Seq<CrawlStep>,
)
    requires
        run_valid(server, CrawlState::start(base_url, workers), steps),
        has_plain_names(server),
    ensures
        clean(run(server, CrawlState::start(base_url, workers), steps)),
    decreases steps.len(),
{
    let start = CrawlState::start(base_url, workers);
    if steps.len() == 0 {
        let none = Seq::<Seq<char>>::empty();
        assert(all_segments(none) && start.pending[0].prefix == dir_path(none));
    } else {
        lemma_run_stays_clean(server, base_url, workers, steps.drop_last());
        let s = run(server, start, steps.drop_last());
        let after = run(server, start, steps);
        match steps.last() {
            CrawlStep::Claim { worker } => {
                assert forall|i: int| 0 <= i < after.pending.len() implies is_dir_prefix(
                    (#[trigger] after.pending[i]).prefix,
                ) by {
                    assert(after.pending[i] == s.pending[i + 1]);
                }
                assert forall|w: int| after.is_busy(w) implies is_dir_prefix(
                    (#[trigger] after.slots[w])->0.prefix,
                ) by {
                    if w == worker {
                        assert(after.slots[w]->0.prefix == s.pending[0].prefix);
                    } else {
                        assert(s.is_busy(w) && s.slots[w] == after.slots[w]);
                    }
                }
            },
            CrawlStep::Complete { worker } => {
                let dir = s.slots[worker]->0;
                let listing = reply(server, dir);
                let dirs = s.found_dirs(worker, listing);
                let files = s.found_files(worker, listing);
                assert(is_dir_prefix(dir.prefix));
                assert forall|i: int| 0 <= i < after.pending.len() implies is_dir_prefix(
                    (#[trigger] after.pending[i]).prefix,
                ) by {
                    if i < s.pending.len() {
                        assert(after.pending[i] == s.pending[i]);
                    } else {
                        let x = dirs[i - s.pending.len()];
                        assert(after.pending[i] == x);
                        assert(listed_dirs(dir, server[dir.url]).contains(x));
                        let k = lemma_listed_dir_entry(dir, server[dir.url], x);
                        law_children_have_clean_paths(dir, server[dir.url][k]);
                    }
                }
                assert forall|w: int| after.is_busy(w) implies is_dir_prefix(
                    (#[trigger] after.slots[w])->0.prefix,
                ) by {
                    assert(s.is_busy(w) && s.slots[w] == after.slots[w]);
                }
                assert forall|i: int| 0 <= i < after.files.len() implies is_file_path(
                    (#[trigger] after.files[i]).path,
                ) by {
                    if i < s.files.len() {
                        assert(after.files[i] == s.files[i]);
                    } else {
                        let f = files[i - s.files.len()];
                        assert(after.files[i] == f);
                        assert(listed_files(dir, server[dir.url]).contains(f));
                        let k = lemma_listed_file_entry(dir, server[dir.url], f);
                        law_children_have_clean_paths(dir, server[dir.url][k]);
                    }
                }
            },
        }
    }
}

/// On a server none of whose entries has a `/` inside its name, every
/// file that a crawl finds has a relative path made of proper segments:
/// none is empty, `.` or `..`, and the segments are the names of the
/// directories that lead to the file, then its own.
pub proof fn law_found_paths_are_clean(
    server: Map<Seq<char>, Seq<EntryView>>,
    base_url: Seq<char>,
    workers: nat,
    steps: Seq<CrawlStep>,
    file: TaskView,
)
    requires
        run_valid(server, CrawlState::start(base_url, workers), steps),
        has_plain_names(server),
        run(server, CrawlState::start(base_url, workers), steps).files.contains(file),
    ensures
        is_file_path(file.path),
{
    lemma_run_stays_clean(server, base_url, workers, steps);
}

} // verus!
