//! The directory crawl as a state machine.
//!
//! A fixed pool of workers lists remote directories. The machine owns the
//! queue of directories still to list, knows which worker is busy with
//! which directory, collects the files found, and keeps the in-flight
//! counter by which the crawl notices that no work is left: the counter
//! starts at 1 for the root; when a worker is done with a directory, the
//! number of subdirectories it found is added and 1 is taken off, and the
//! completion that takes the counter from 1 to 0 closes the queue.
//!
//! Fetching a listing is the caller's part: it claims a directory for an
//! idle worker, fetches the listing, and reports what came back.

use vstd::prelude::*;
use crate::listing::{
    classify, entry_views, item_views, listed_dirs, listed_files, task_views, EntryView, FileTask,
    ItemView, RemoteEntry, TaskView, WorkItem,
};
use crate::queue::WorkQueue;
use crate::text::{join, ensure_trailing_slash, with_trailing_slash};

verus! {

/// Why a completion was refused.
#[derive(Clone, Copy, Debug, PartialEq, Eq, Structural)]
pub enum CrawlError {
    /// The worker does not exist or holds no directory.
    Idle,
    /// The in-flight counter cannot hold the subdirectories found.
    Overflow,
}

/// The crawl at one moment.
#[verifier::ext_equal]
pub struct CrawlState {
    /// Directories waiting to be claimed, oldest first.
    pub pending: Seq<ItemView>,
    /// For each worker, the directory it is listing, if any.
    pub slots: Seq<Option<ItemView>>,
    /// The files found so far.
    pub files: Seq<TaskView>,
    /// Directories discovered and not yet completed.
    pub in_flight: nat,
    /// Whether the queue has been closed.
    pub closed: bool,
}

/// The number of workers that hold a directory.
pub open spec fn busy(slots: Seq<Option<ItemView>>) -> nat
    decreases slots.len(),
{
    if slots.len() == 0 {
        0
    } else {
        busy(slots.drop_last()) + if slots.last() is Some {
            1nat
        } else {
            0nat
        }
    }
}

pub open spec fn listing_view(listing: Option<Vec<RemoteEntry>>) -> Option<Seq<EntryView>> {
    match listing {
        Some(entries) => Some(entry_views(entries@)),
        None => None,
    }
}

impl CrawlState {
    /// The crawl before any work: the root directory waits, every worker
    /// is idle, and the counter stands at 1 for the root.
    pub open spec fn start(base_url: Seq<char>, workers: nat) -> CrawlState {
        CrawlState {
            pending: seq![ItemView { url: base_url.push('/'), prefix: Seq::empty() }],
            slots: Seq::new(workers, |i: int| None::<ItemView>),
            files: Seq::empty(),
            in_flight: 1,
            closed: false,
        }
    }

    /// The counter counts exactly the waiting and the claimed directories,
    /// and the queue is closed exactly when it has reached 0.
    pub open spec fn inv(self) -> bool {
        &&& self.in_flight == self.pending.len() + busy(self.slots)
        &&& self.closed <==> self.in_flight == 0
    }

    pub open spec fn is_busy(self, worker: int) -> bool {
        0 <= worker < self.slots.len() && self.slots[worker] is Some
    }

    /// Whether `worker` can take a directory: it exists, is idle, and a
    /// directory waits.
    pub open spec fn can_claim(self, worker: int) -> bool {
        0 <= worker < self.slots.len() && self.slots[worker] is None && self.pending.len() > 0
    }

    /// The directory that the next claim hands out: the oldest waiting
    /// one, its URL ending with `/`.
    pub open spec fn offered(self) -> ItemView {
        ItemView { url: with_trailing_slash(self.pending[0].url), prefix: self.pending[0].prefix }
    }

    /// The crawl after `worker` has claimed the offered directory.
    pub open spec fn claim(self, worker: int) -> CrawlState {
        CrawlState {
            pending: self.pending.skip(1),
            slots: self.slots.update(worker, Some(self.offered())),
            ..self
        }
    }

    /// The subdirectories that `worker`'s directory yields under
    /// `listing`: none when the listing failed.
    pub open spec fn found_dirs(self, worker: int, listing: Option<Seq<EntryView>>) -> Seq<ItemView> {
        match listing {
            Some(entries) => listed_dirs(self.slots[worker]->0, entries),
            None => Seq::empty(),
        }
    }

    /// The files that `worker`'s directory yields under `listing`: none
    /// when the listing failed.
    pub open spec fn found_files(self, worker: int, listing: Option<Seq<EntryView>>) -> Seq<TaskView> {
        match listing {
            Some(entries) => listed_files(self.slots[worker]->0, entries),
            None => Seq::empty(),
        }
    }

    /// The crawl after `worker` has finished its directory with `listing`
    /// (`None`: the listing could not be had). The subdirectories join
    /// the queue, the files join the result, the counter gains the
    /// subdirectories and loses the finished directory, and the queue is
    /// closed if that took the counter from 1 to 0.
    pub open spec fn complete(self, worker: int, listing: Option<Seq<EntryView>>) -> CrawlState {
        let dirs = self.found_dirs(worker, listing);
        CrawlState {
            pending: self.pending + dirs,
            slots: self.slots.update(worker, None),
            files: self.files + self.found_files(worker, listing),
            in_flight: (self.in_flight + dirs.len() - 1) as nat,
            closed: self.in_flight + dirs.len() == 1,
        }
    }
}

/// Giving a directory to an idle worker makes one more worker busy.
pub proof fn lemma_busy_occupy(slots: Seq<Option<ItemView>>, worker: int, item: ItemView)
    requires
        0 <= worker < slots.len(),
        slots[worker] is None,
    ensures
        busy(slots.update(worker, Some(item))) == busy(slots) + 1,
    decreases slots.len(),
{
    let after = slots.update(worker, Some(item));
    if worker == slots.len() - 1 {
        assert(after.drop_last() =~= slots.drop_last());
    } else {
        assert(after.drop_last() =~= slots.drop_last().update(worker, Some(item)));
        lemma_busy_occupy(slots.drop_last(), worker, item);
    }
}

/// Taking the directory from a busy worker makes one fewer worker busy.
pub proof fn lemma_busy_release(slots: Seq<Option<ItemView>>, worker: int)
    requires
        0 <= worker < slots.len(),
        slots[worker] is Some,
    ensures
        busy(slots) >= 1,
        busy(slots.update(worker, None)) == busy(slots) - 1,
    decreases slots.len(),
{
    let after = slots.update(worker, None);
    if worker == slots.len() - 1 {
        assert(after.drop_last() =~= slots.drop_last());
    } else {
        assert(after.drop_last() =~= slots.drop_last().update(worker, None));
        lemma_busy_release(slots.drop_last(), worker);
    }
}

/// A pool in which no worker holds a directory has no busy worker, and
/// the other way round.
pub proof fn lemma_busy_none(slots: Seq<Option<ItemView>>)
    ensures
        busy(slots) == 0 <==> forall|w: int| 0 <= w < slots.len() ==> slots[w] is None,
    decreases slots.len(),
{
    if slots.len() > 0 {
        lemma_busy_none(slots.drop_last());
        if busy(slots) == 0 {
            assert forall|w: int| 0 <= w < slots.len() implies slots[w] is None by {
                if w < slots.len() - 1 {
                    assert(slots.drop_last()[w] is None);
                }
            }
        } else if forall|w: int| 0 <= w < slots.len() ==> slots[w] is None {
            assert(forall|w: int| 0 <= w < slots.drop_last().len() ==> slots.drop_last()[w] is None);
        }
    }
}

pub open spec fn as_item(message: (Seq<char>, Seq<char>)) -> ItemView {
    ItemView { url: message.0, prefix: message.1 }
}

pub open spec fn slot_view(slot: Option<WorkItem>) -> Option<ItemView> {
    match slot {
        Some(item) => Some(item@),
        None => None,
    }
}

/// The crawl of one remote tree by a fixed pool of workers.
pub struct Crawler {
    queue: WorkQueue,
    slots: Vec<Option<WorkItem>>,
    files: Vec<FileTask>,
    in_flight: usize,
}

impl View for Crawler {
    type V = CrawlState;

    closed spec fn view(&self) -> CrawlState {
        CrawlState {
            pending: self.queue.messages().map_values(|m: (Seq<char>, Seq<char>)| as_item(m)),
            slots: self.slots@.map_values(|s: Option<WorkItem>| slot_view(s)),
            files: task_views(self.files@),
            in_flight: self.in_flight as nat,
            closed: self.queue.closed(),
        }
    }
}

impl Crawler {
    /// The queue is sound and the counter agrees with the work at hand.
    pub closed spec fn wf(&self) -> bool {
        self.queue.wf() && self@.inv()
    }

    /// What `wf` says of the crawl's state, and that the counter fits the
    /// machine.
    pub proof fn lemma_wf(&self)
        requires
            self.wf(),
        ensures
            self@.inv(),
            self@.in_flight <= usize::MAX,
    {
    }

    /// A crawl of the tree under `base_url` by `workers` workers. The
    /// root directory, `base_url` and a `/`, waits in the queue.
    pub fn new(base_url: &str, workers: usize) -> (crawler: Crawler)
        ensures
            crawler.wf(),
            crawler@ == CrawlState::start(base_url@, workers as nat),
    {
        let mut queue = WorkQueue::new();
        proof {
            reveal_strlit("/");
            assert(base_url@ + "/"@ =~= base_url@.push('/'));
        }
        let root = join(base_url, "/");
        queue.push(root, String::new());
        let mut slots: Vec<Option<WorkItem>> = Vec::new();
        let mut i: usize = 0;
        while i < workers
            invariant
                i <= workers,
                slots@.len() == i,
                forall|k: int| 0 <= k < i ==> slots@[k] is None,
            decreases workers - i,
        {
            slots.push(None);
            i += 1;
        }
        let crawler = Crawler { queue, slots, files: Vec::new(), in_flight: 1 };
        proof {
            let start = CrawlState::start(base_url@, workers as nat);
            assert(crawler@.slots =~= start.slots);
            lemma_busy_none(start.slots);
        }
        crawler
    }

    /// The number of workers.
    pub fn workers(&self) -> (n: usize)
        ensures
            n == self@.slots.len(),
    {
        self.slots.len()
    }

    /// Directories discovered and not yet completed.
    pub fn in_flight(&self) -> (n: usize)
        ensures
            n == self@.in_flight,
    {
        self.in_flight
    }

    /// The number of files found so far.
    pub fn discovered(&self) -> (n: usize)
        ensures
            n == self@.files.len(),
    {
        self.files.len()
    }

    /// Whether the queue has been closed: with `wf`, whether the crawl is
    /// over.
    pub fn is_finished(&self) -> (done: bool)
        ensures
            done == self@.closed,
    {
        self.queue.is_closed()
    }

    /// Hands the oldest waiting directory to `worker`, its URL ending with
    /// `/`. Nothing is handed out, and nothing changes, if the worker does
    /// not exist, is busy, or no directory waits.
    pub fn claim(&mut self, worker: usize) -> (claimed: Option<WorkItem>)
        requires
            old(self).wf(),
        ensures
            final(self).wf(),
            match claimed {
                Some(item) => {
                    &&& old(self)@.can_claim(worker as int)
                    &&& item@ == old(self)@.offered()
                    &&& final(self)@ == old(self)@.claim(worker as int)
                },
                None => !old(self)@.can_claim(worker as int) && final(self)@ == old(self)@,
            },
    {
        if worker >= self.slots.len() {
            return None;
        }
        if self.slots[worker].is_some() {
            return None;
        }
        let ghost before = self@;
        match self.queue.pop() {
            None => None,
            Some(message) => {
                let url = ensure_trailing_slash(message.0.as_str());
                let item = WorkItem { url, prefix: message.1 };
                let copy = item.duplicate();
                self.slots.set(worker, Some(item));
                proof {
                    let after = before.claim(worker as int);
                    assert(self@ =~= after);
                    lemma_busy_occupy(before.slots, worker as int, before.offered());
                }
                Some(copy)
            },
        }
    }

    /// Reports that `worker` is done with its directory: `listing` holds
    /// the entries that the server listed, or `None` if the listing could
    /// not be had, in which case the directory counts as exhausted and
    /// what lies under it is left out.
    ///
    /// Returns whether this completion closed the queue. It is refused as
    /// `Idle` if the worker holds no directory, and as `Overflow` if the
    /// counter could not hold the subdirectories found; a refused
    /// completion changes nothing.
    pub fn complete(&mut self, worker: usize, listing: Option<Vec<RemoteEntry>>) -> (result: Result<
        bool,
        CrawlError,
    >)
        requires
            old(self).wf(),
        ensures
            final(self).wf(),
            match result {
                Ok(closed_now) => {
                    &&& old(self)@.is_busy(worker as int)
                    &&& old(self)@.in_flight + old(self)@.found_dirs(
                        worker as int,
                        listing_view(listing),
                    ).len() <= usize::MAX
                    &&& final(self)@ == old(self)@.complete(worker as int, listing_view(listing))
                    &&& closed_now == final(self)@.closed
                },
                Err(CrawlError::Idle) => {
                    &&& !old(self)@.is_busy(worker as int)
                    &&& final(self)@ == old(self)@
                },
                Err(CrawlError::Overflow) => {
                    &&& old(self)@.is_busy(worker as int)
                    &&& old(self)@.in_flight + old(self)@.found_dirs(
                        worker as int,
                        listing_view(listing),
                    ).len() > usize::MAX
                    &&& final(self)@ == old(self)@
                },
            },
    {
        if worker >= self.slots.len() {
            return Err(CrawlError::Idle);
        }
        let ghost before = self@;
        let ghost lv = listing_view(listing);
        let (dirs, mut files) = match &self.slots[worker] {
            None => {
                return Err(CrawlError::Idle);
            },
            Some(item) => match &listing {
                Some(entries) => classify(item, entries),
                None => (Vec::new(), Vec::new()),
            },
        };
        // The counter first gains the subdirectories found; `counted` is
        // what it then shows, before the finished directory is taken off.
        let counted = match self.in_flight.checked_add(dirs.len()) {
            None => {
                return Err(CrawlError::Overflow);
            },
            Some(n) => n,
        };
        proof {
            lemma_busy_release(before.slots, worker as int);
        }
        let mut k: usize = 0;
        while k < dirs.len()
            invariant
                k <= dirs.len(),
                self.queue.wf(),
                !self.queue.closed(),
                self@.pending == before.pending + item_views(dirs@).take(k as int),
                self@.slots == before.slots,
                self@.files == before.files,
                self@.in_flight == before.in_flight,
            decreases dirs.len() - k,
        {
            let ghost waiting = self@.pending;
            let url = dirs[k].url.clone();
            let prefix = dirs[k].prefix.clone();
            self.queue.push(url, prefix);
            proof {
                let m = (dirs@[k as int].url@, dirs@[k as int].prefix@);
                assert(self@.pending =~= waiting.push(as_item(m)));
            }
            k += 1;
        }
        self.files.append(&mut files);
        self.in_flight = counted - 1;
        self.slots.set(worker, None);
        // Whoever takes the counter from 1 to 0 closes the queue.
        let closed_now = if counted == 1 {
            self.queue.close()
        } else {
            false
        };
        proof {
            let after = before.complete(worker as int, lv);
            assert(self@ =~= after);
        }
        Ok(closed_now)
    }

    /// Ends the crawl and hands over the files found.
    pub fn into_files(self) -> (files: Vec<FileTask>)
        ensures
            task_views(files@) == self@.files,
    {
        self.files
    }
}

} // verus!
