//! The work queue: the two ends of an unbounded channel, kept together.
use async_channel::{Receiver, Sender, TryRecvError, TrySendError};
use vstd::prelude::*;

verus! {

#[verifier::external_type_specification]
#[verifier::external_body]
#[verifier::reject_recursive_types(T)]
pub struct ExSender<T>(Sender<T>);

#[verifier::external_type_specification]
#[verifier::external_body]
#[verifier::reject_recursive_types(T)]
pub struct ExReceiver<T>(Receiver<T>);

#[verifier::external_type_specification]
#[verifier::external_body]
#[verifier::reject_recursive_types(T)]
pub struct ExTrySendError<T>(TrySendError<T>);

#[verifier::external_type_specification]
#[verifier::external_body]
pub struct ExTryRecvError(TryRecvError);

/// The messages waiting in the channel that `recv` reads from, oldest first.
pub uninterp spec fn channel_contents(recv: Receiver<u64>) -> Seq<u64>;

/// Whether the channel that `recv` reads from has been closed.
pub uninterp spec fn channel_closed(recv: Receiver<u64>) -> bool;

/// Whether `send` and `recv` are the only two ends of one unbounded channel.
pub uninterp spec fn channel_ends(send: Sender<u64>, recv: Receiver<u64>) -> bool;

/// Calls `async_channel::unbounded`: the two ends of a new channel, which is open and empty.
#[verifier::external_body]
fn unbounded() -> (ends: (Sender<u64>, Receiver<u64>))
    ensures
        channel_ends(ends.0, ends.1),
        channel_contents(ends.1) == Seq::<u64>::empty(),
        !channel_closed(ends.1),
{
    async_channel::unbounded()
}

/// Calls `Sender::try_send`. An unbounded channel is never full: the message joins the back of
/// the channel, unless the channel is closed, in which case it comes back inside the error and
/// nothing changes. `recv` is the other end, through which the effect is seen.
#[verifier::external_body]
fn try_send(send: &Sender<u64>, recv: &mut Receiver<u64>, msg: u64) -> (res: Result<
    (),
    TrySendError<u64>,
>)
    requires
        channel_ends(*send, *old(recv)),
    ensures
        channel_ends(*send, *final(recv)),
        channel_closed(*final(recv)) == channel_closed(*old(recv)),
        res is Ok <==> !channel_closed(*old(recv)),
        channel_contents(*final(recv)) == if channel_closed(*old(recv)) {
            channel_contents(*old(recv))
        } else {
            channel_contents(*old(recv)).push(msg)
        },
{
    let _ = recv;
    send.try_send(msg)
}

/// Calls `Receiver::try_recv`: takes the oldest message, whether or not the channel is closed,
/// and fails if there is none.
#[verifier::external_body]
fn try_recv(send: &Sender<u64>, recv: &mut Receiver<u64>) -> (res: Result<u64, TryRecvError>)
    requires
        channel_ends(*send, *old(recv)),
    ensures
        channel_ends(*send, *final(recv)),
        channel_closed(*final(recv)) == channel_closed(*old(recv)),
        match res {
            Ok(msg) => {
                &&& channel_contents(*old(recv)).len() > 0
                &&& msg == channel_contents(*old(recv))[0]
                &&& channel_contents(*final(recv)) == channel_contents(*old(recv)).drop_first()
            },
            Err(_) => {
                &&& channel_contents(*old(recv)).len() == 0
                &&& channel_contents(*final(recv)) == channel_contents(*old(recv))
            },
        },
{
    let _ = send;
    recv.try_recv()
}

/// Calls `Receiver::close`: closes the channel, keeping what waits in it, and tells whether
/// it was open until now.
#[verifier::external_body]
fn close(send: &Sender<u64>, recv: &mut Receiver<u64>) -> (res: bool)
    requires
        channel_ends(*send, *old(recv)),
    ensures
        channel_ends(*send, *final(recv)),
        channel_closed(*final(recv)),
        channel_contents(*final(recv)) == channel_contents(*old(recv)),
        res == !channel_closed(*old(recv)),
{
    let _ = send;
    recv.close()
}

/// Calls `Receiver::is_closed`. As long as there is a sender, a channel is closed only by being told
/// so.
#[verifier::external_body]
fn is_closed(send: &Sender<u64>, recv: &Receiver<u64>) -> (res: bool)
    requires
        channel_ends(*send, *recv),
    ensures
        res == channel_closed(*recv),
{
    let _ = send;
    recv.is_closed()
}

/// The queue of submitted work, as the tickets of the tasks that wait in it.
///
/// Both ends of the channel live here and are never handed out or cloned, so whoever holds the
/// queue mutably is the only one who can see it change.
pub struct WorkQueue {
    work_send: Sender<u64>,
    work_recv: Receiver<u64>,
}

impl WorkQueue {
    /// The two ends belong together.
    pub closed spec fn wf(&self) -> bool {
        channel_ends(self.work_send, self.work_recv)
    }

    /// The tickets waiting, in the order in which they were submitted.
    pub closed spec fn tickets(&self) -> Seq<u64> {
        channel_contents(self.work_recv)
    }

    /// Whether submission has been disabled.
    pub closed spec fn closed(&self) -> bool {
        channel_closed(self.work_recv)
    }

    /// An open queue with nothing in it.
    pub fn new() -> (queue: WorkQueue)
        ensures
            queue.wf(),
            queue.tickets() == Seq::<u64>::empty(),
            !queue.closed(),
    {
        let (work_send, work_recv) = unbounded();
        WorkQueue { work_send, work_recv }
    }

    /// Submits a ticket and tells whether it was accepted. A closed queue accepts nothing.
    pub fn submit(&mut self, ticket: u64) -> (accepted: bool)
        requires
            old(self).wf(),
        ensures
            final(self).wf(),
            accepted == !old(self).closed(),
            final(self).closed() == old(self).closed(),
            final(self).tickets() == if accepted {
                old(self).tickets().push(ticket)
            } else {
                old(self).tickets()
            },
    {
        try_send(&self.work_send, &mut self.work_recv, ticket).is_ok()
    }

    /// Takes the ticket that has waited longest, if any.
    pub fn take(&mut self) -> (ticket: Option<u64>)
        requires
            old(self).wf(),
        ensures
            final(self).wf(),
            final(self).closed() == old(self).closed(),
            match ticket {
                Some(t) => {
                    &&& old(self).tickets().len() > 0
                    &&& t == old(self).tickets()[0]
                    &&& final(self).tickets() == old(self).tickets().drop_first()
                },
                None => {
                    &&& old(self).tickets().len() == 0
                    &&& final(self).tickets() == old(self).tickets()
                },
            },
    {
        match try_recv(&self.work_send, &mut self.work_recv) {
            Ok(ticket) => Some(ticket),
            Err(_) => None,
        }
    }

    /// Disables submission and tells whether it was enabled until now. What already waits can still
    /// be taken.
    pub fn close(&mut self) -> (was_open: bool)
        requires
            old(self).wf(),
        ensures
            final(self).wf(),
            final(self).closed(),
            final(self).tickets() == old(self).tickets(),
            was_open == !old(self).closed(),
    {
        close(&self.work_send, &mut self.work_recv)
    }

    /// Whether submission has been disabled.
    pub fn is_closed(&self) -> (closed: bool)
        requires
            self.wf(),
        ensures
            closed == self.closed(),
    {
        is_closed(&self.work_send, &self.work_recv)
    }
}

} // verus!
