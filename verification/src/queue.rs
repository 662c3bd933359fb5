//! The crawl's work queue: an unbounded `async_channel` channel used as a
//! FIFO of `(directory_url, path_prefix)` messages.
//!
//! Verus cannot look inside the channel. What it holds is given a name
//! here, and each channel call the crawl makes goes through one function
//! whose contract is taken on trust from the channel's source.

use vstd::prelude::*;
use async_channel::{Receiver, Sender};

verus! {

#[verifier::external_type_specification]
#[verifier::external_body]
#[verifier::reject_recursive_types(T)]
pub struct ExSender<T>(Sender<T>);

#[verifier::external_type_specification]
#[verifier::external_body]
#[verifier::reject_recursive_types(T)]
pub struct ExReceiver<T>(Receiver<T>);

/// The messages waiting in the channel that `rx` receives from, oldest first.
pub uninterp spec fn channel_messages(rx: Receiver<(String, String)>) -> Seq<(Seq<char>, Seq<char>)>;

/// Whether the channel that `rx` receives from has been closed.
pub uninterp spec fn channel_closed(rx: Receiver<(String, String)>) -> bool;

/// Which channel the receiving handle `rx` belongs to.
pub uninterp spec fn receiver_channel(rx: Receiver<(String, String)>) -> int;

/// Which channel the sending handle `tx` belongs to.
pub uninterp spec fn sender_channel(tx: Sender<(String, String)>) -> int;

/// `async_channel::unbounded`: a fresh channel, empty and open, and its two
/// handles, which belong to that one channel.
#[verifier::external_body]
fn channel_open() -> (pair: (Sender<(String, String)>, Receiver<(String, String)>))
    ensures
        channel_messages(pair.1) == Seq::<(Seq<char>, Seq<char>)>::empty(),
        !channel_closed(pair.1),
        sender_channel(pair.0) == receiver_channel(pair.1),
{
    async_channel::unbounded()
}

/// `Sender::try_send` on an unbounded channel: an open channel takes the
/// message at the back and the call reports `true`; a closed channel
/// refuses it, stays as it was, and the call reports `false`. The
/// receiving handle of the same channel is passed along because the
/// contents are named through it.
#[verifier::external_body]
#[allow(unused_variables)]
fn channel_send(
    tx: &Sender<(String, String)>,
    rx: &mut Receiver<(String, String)>,
    url: String,
    prefix: String,
) -> (sent: bool)
    requires
        sender_channel(*tx) == receiver_channel(*old(rx)),
    ensures
        sent == !channel_closed(*old(rx)),
        channel_messages(*final(rx)) == if sent {
            channel_messages(*old(rx)).push((url@, prefix@))
        } else {
            channel_messages(*old(rx))
        },
        channel_closed(*final(rx)) == channel_closed(*old(rx)),
        receiver_channel(*final(rx)) == receiver_channel(*old(rx)),
{
    tx.try_send((url, prefix)).is_ok()
}

/// `Receiver::try_recv`: the oldest waiting message leaves the channel and
/// is returned; an empty channel, open or closed, gives `None` and stays
/// as it was.
#[verifier::external_body]
fn channel_receive(rx: &mut Receiver<(String, String)>) -> (got: Option<(String, String)>)
    ensures
        match got {
            Some(message) => {
                &&& channel_messages(*old(rx)).len() > 0
                &&& (message.0@, message.1@) == channel_messages(*old(rx))[0]
                &&& channel_messages(*final(rx)) == channel_messages(*old(rx)).skip(1)
            },
            None => {
                &&& channel_messages(*old(rx)).len() == 0
                &&& channel_messages(*final(rx)) == channel_messages(*old(rx))
            },
        },
        channel_closed(*final(rx)) == channel_closed(*old(rx)),
        receiver_channel(*final(rx)) == receiver_channel(*old(rx)),
{
    rx.try_recv().ok()
}

/// `Receiver::close`: the channel is closed afterwards and keeps its
/// waiting messages; the call reports whether it was this call that
/// closed it.
#[verifier::external_body]
fn channel_close(rx: &mut Receiver<(String, String)>) -> (closed_now: bool)
    ensures
        closed_now == !channel_closed(*old(rx)),
        channel_closed(*final(rx)),
        channel_messages(*final(rx)) == channel_messages(*old(rx)),
        receiver_channel(*final(rx)) == receiver_channel(*old(rx)),
{
    rx.close()
}

/// `Receiver::is_closed`: whether the channel has been closed.
#[verifier::external_body]
fn channel_is_closed(rx: &Receiver<(String, String)>) -> (closed: bool)
    ensures
        closed == channel_closed(*rx),
{
    rx.is_closed()
}

/// A FIFO of `(directory_url, path_prefix)` messages that can be closed.
///
/// Both handles of one channel are kept here and never handed out or
/// cloned, so the channel changes only through the methods below.
pub struct WorkQueue {
    tx: Sender<(String, String)>,
    rx: Receiver<(String, String)>,
}

impl WorkQueue {
    /// The two handles belong to one channel.
    pub closed spec fn wf(&self) -> bool {
        sender_channel(self.tx) == receiver_channel(self.rx)
    }

    /// The waiting messages, oldest first.
    pub closed spec fn messages(&self) -> Seq<(Seq<char>, Seq<char>)> {
        channel_messages(self.rx)
    }

    /// Whether the queue has been closed.
    pub closed spec fn closed(&self) -> bool {
        channel_closed(self.rx)
    }

    /// An empty, open queue.
    pub fn new() -> (q: WorkQueue)
        ensures
            q.wf(),
            q.messages() == Seq::<(Seq<char>, Seq<char>)>::empty(),
            !q.closed(),
    {
        let (tx, rx) = channel_open();
        WorkQueue { tx, rx }
    }

    /// Appends a message unless the queue is closed; reports whether it
    /// was taken.
    pub fn push(&mut self, url: String, prefix: String) -> (sent: bool)
        requires
            old(self).wf(),
        ensures
            final(self).wf(),
            sent == !old(self).closed(),
            final(self).closed() == old(self).closed(),
            final(self).messages() == if sent {
                old(self).messages().push((url@, prefix@))
            } else {
                old(self).messages()
            },
    {
        channel_send(&self.tx, &mut self.rx, url, prefix)
    }

    /// Takes the oldest message, if there is one.
    pub fn pop(&mut self) -> (got: Option<(String, String)>)
        requires
            old(self).wf(),
        ensures
            final(self).wf(),
            final(self).closed() == old(self).closed(),
            match got {
                Some(message) => {
                    &&& old(self).messages().len() > 0
                    &&& (message.0@, message.1@) == old(self).messages()[0]
                    &&& final(self).messages() == old(self).messages().skip(1)
                },
                None => {
                    &&& old(self).messages().len() == 0
                    &&& final(self).messages() == old(self).messages()
                },
            },
    {
        channel_receive(&mut self.rx)
    }

    /// Closes the queue, keeping what waits in it; reports whether this
    /// call closed it.
    pub fn close(&mut self) -> (closed_now: bool)
        requires
            old(self).wf(),
        ensures
            final(self).wf(),
            final(self).closed(),
            closed_now == !old(self).closed(),
            final(self).messages() == old(self).messages(),
    {
        channel_close(&mut self.rx)
    }

    /// Whether the queue has been closed.
    pub fn is_closed(&self) -> (closed: bool)
        ensures
            closed == self.closed(),
    {
        channel_is_closed(&self.rx)
    }
}

} // verus!
