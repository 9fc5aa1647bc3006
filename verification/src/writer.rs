//! The producer's handle: it enqueues payloads and the end-of-stream sentinel.

use std::sync::mpsc::Sender;
use vstd::prelude::*;
use vstd::slice::slice_to_vec;

use crate::endpoint::Destination;
use crate::message::{Message, WriteRequest};

verus! {

#[verifier::external_type_specification]
#[verifier::external_body]
#[verifier::reject_recursive_types(T)]
pub struct ExSender<T>(Sender<T>);

/// The receiving side of the queue is gone: nothing can be enqueued any more.
/// Callers that write to byte sinks report it as an I/O error.
#[derive(Clone, Copy, Debug, PartialEq, Eq, Structural)]
pub struct ChannelClosedError;

/// The sending end of the queue, bound to the destination of the stream.
///
/// The handle does not own the socket. Its record of what it has enqueued is
/// what the queue has accepted from its sending end since the handle was made.
pub struct StreamingWriter {
    socket_addr: Destination,
    queue_tx: Sender<WriteRequest>,
    sent_before: Ghost<Seq<Message>>,
}

/// The messages that the queue has accepted from the sending end `queue_tx`,
/// oldest first.
pub uninterp spec fn accepted_by(queue_tx: Sender<WriteRequest>) -> Seq<Message>;

/// Hands `request` to `std::sync::mpsc::Sender::send`, which never blocks and
/// has no documented panic, and says whether the queue took it. Where the call
/// returns `Ok`, the message has been sent: it is the newest that the queue has
/// accepted from this sending end. Where it returns `Err`, the message comes
/// back unsent and the queue holds what it held. Which of the two happens
/// depends on whether the receiving end is still there, and nothing is claimed
/// of that.
#[verifier::external_body]
fn send_request(queue_tx: &mut Sender<WriteRequest>, request: WriteRequest) -> (accepted: bool)
    ensures
        accepted ==> accepted_by(*final(queue_tx)) == accepted_by(*old(queue_tx)).push(request@),
        !accepted ==> accepted_by(*final(queue_tx)) == accepted_by(*old(queue_tx)),
    no_unwind
{
    match queue_tx.send(request) {
        Ok(()) => true,
        Err(_) => false,
    }
}

/// What a write of `len` bytes reports once the queue has answered: the number
/// of bytes where it accepted the message, the error where it did not.
pub fn write_outcome(accepted: bool, len: usize) -> (result: Result<usize, ChannelClosedError>)
    ensures
        result == if accepted {
            Ok::<usize, ChannelClosedError>(len)
        } else {
            Err::<usize, ChannelClosedError>(ChannelClosedError)
        },
{
    if accepted {
        Ok(len)
    } else {
        Err(ChannelClosedError)
    }
}

impl StreamingWriter {
    /// What the sending end had sent before the handle was made is the front
    /// of what the queue has accepted from it.
    #[verifier::type_invariant]
    spec fn well_formed(self) -> bool {
        self.sent_before@.len() <= accepted_by(self.queue_tx).len() && forall|i: int|
            0 <= i < self.sent_before@.len() ==> accepted_by(self.queue_tx)[i]
                == #[trigger] self.sent_before@[i]
    }

    /// The sending end that the handle holds.
    pub closed spec fn sending_end(&self) -> Sender<WriteRequest> {
        self.queue_tx
    }

    /// The messages that the queue had accepted from the sending end when the
    /// handle was made. It never changes.
    pub closed spec fn sent_before(&self) -> Seq<Message> {
        self.sent_before@
    }

    /// The messages that the queue has accepted from this handle, oldest first:
    /// those that it has accepted from the sending end since the handle was
    /// made.
    pub closed spec fn enqueued(&self) -> Seq<Message> {
        accepted_by(self.queue_tx).skip(self.sent_before@.len() as int)
    }

    /// Where the worker sends the payloads. It never changes.
    pub closed spec fn spec_socket_addr(&self) -> Destination {
        self.socket_addr
    }

    /// Where the worker sends the payloads.
    #[verifier::when_used_as_spec(spec_socket_addr)]
    pub fn socket_addr(&self) -> (destination: Destination)
        ensures
            destination == self.spec_socket_addr(),
    {
        self.socket_addr
    }

    /// A handle that sends to `queue_tx` the payloads meant for
    /// `write_destination`. The handle holds `queue_tx` as it was given: making
    /// the handle sends nothing, and nothing has been enqueued yet.
    pub fn new(write_destination: Destination, queue_tx: Sender<WriteRequest>) -> (writer:
        StreamingWriter)
        ensures
            writer.socket_addr() == write_destination,
            writer.sending_end() == queue_tx,
            writer.sent_before() == accepted_by(queue_tx),
            writer.enqueued() == Seq::<Message>::empty(),
    {
        let ghost sent_before = accepted_by(queue_tx);
        assert(sent_before.skip(sent_before.len() as int) =~= Seq::<Message>::empty());
        StreamingWriter {
            socket_addr: write_destination,
            queue_tx,
            sent_before: Ghost(sent_before),
        }
    }

    /// Enqueues a copy of `buf` as one `Content` message.
    ///
    /// Where the queue accepts it, the result is the length of `buf`. Where the
    /// worker is gone, the result is the error and nothing was enqueued.
    pub fn write(&mut self, buf: &[u8]) -> (result: Result<usize, ChannelClosedError>)
        ensures
            final(self).socket_addr() == old(self).socket_addr(),
            result matches Ok(n) ==> n == buf@.len() && final(self).enqueued() == old(
                self,
            ).enqueued().push(Message::Content(buf@)),
            result is Err ==> final(self).enqueued() == old(self).enqueued(),
            final(self).sent_before() == old(self).sent_before(),
            accepted_by(final(self).sending_end()) == final(self).sent_before()
                + final(self).enqueued(),
    {
        proof {
            use_type_invariant(&*self);
        }
        let request = WriteRequest::Content(slice_to_vec(buf));
        let ghost before = accepted_by(self.queue_tx);
        let accepted = send_request(&mut self.queue_tx, request);
        proof {
            lemma_grown_record(
                before,
                accepted_by(self.queue_tx),
                Message::Content(buf@),
                self.sent_before@.len() as int,
            );
            assert(before.take(self.sent_before@.len() as int) =~= self.sent_before@);
        }
        write_outcome(accepted, buf.len())
    }

    /// Does nothing and succeeds: the queue is the only buffer there is.
    pub fn flush(&mut self) -> (result: Result<(), ChannelClosedError>)
        ensures
            result is Ok,
            final(self).socket_addr() == old(self).socket_addr(),
            final(self).sending_end() == old(self).sending_end(),
            final(self).enqueued() == old(self).enqueued(),
            final(self).sent_before() == old(self).sent_before(),
            accepted_by(final(self).sending_end()) == final(self).sent_before()
                + final(self).enqueued(),
    {
        proof {
            use_type_invariant(&*self);
            lemma_front_and_rest(accepted_by(self.queue_tx), self.sent_before@.len() as int);
            assert(accepted_by(self.queue_tx).take(self.sent_before@.len() as int)
                =~= self.sent_before@);
        }
        Ok(())
    }

    /// Enqueues the end-of-stream sentinel, once.
    ///
    /// Where the worker is gone already, the result is the error and nothing
    /// was enqueued.
    pub fn stop_rx(&mut self) -> (result: Result<(), ChannelClosedError>)
        ensures
            final(self).socket_addr() == old(self).socket_addr(),
            result is Ok ==> final(self).enqueued() == old(self).enqueued().push(Message::Done),
            result is Err ==> final(self).enqueued() == old(self).enqueued(),
            final(self).sent_before() == old(self).sent_before(),
            accepted_by(final(self).sending_end()) == final(self).sent_before()
                + final(self).enqueued(),
    {
        proof {
            use_type_invariant(&*self);
        }
        let ghost before = accepted_by(self.queue_tx);
        let accepted = send_request(&mut self.queue_tx, WriteRequest::Done);
        proof {
            lemma_grown_record(
                before,
                accepted_by(self.queue_tx),
                Message::Done,
                self.sent_before@.len() as int,
            );
            assert(before.take(self.sent_before@.len() as int) =~= self.sent_before@);
        }
        stop_outcome(accepted)
    }
}

/// What a stop reports once the queue has answered: success where it accepted
/// the sentinel, the error where it did not.
pub fn stop_outcome(accepted: bool) -> (result: Result<(), ChannelClosedError>)
    ensures
        result == if accepted {
            Ok::<(), ChannelClosedError>(())
        } else {
            Err::<(), ChannelClosedError>(ChannelClosedError)
        },
{
    if accepted {
        Ok(())
    } else {
        Err(ChannelClosedError)
    }
}

/// A sequence is its front of `k` items followed by the rest.
proof fn lemma_front_and_rest(queue: Seq<Message>, k: int)
    requires
        0 <= k <= queue.len(),
    ensures
        queue == queue.take(k) + queue.skip(k),
{
    assert(queue =~= queue.take(k) + queue.skip(k));
}

/// Where a queue is as it was, or has one more message at its end, its front
/// of `k` items is as it was, and what follows the front is as it was or has
/// that message at its end.
proof fn lemma_grown_record(before: Seq<Message>, after: Seq<Message>, message: Message, k: int)
    requires
        0 <= k <= before.len(),
        after == before || after == before.push(message),
    ensures
        after.take(k) == before.take(k),
        after == before ==> after.skip(k) == before.skip(k),
        after == before.push(message) ==> after.skip(k) == before.skip(k).push(message),
        after == after.take(k) + after.skip(k),
{
    assert(after.take(k) =~= before.take(k));
    if after == before.push(message) {
        assert(after.skip(k) =~= before.skip(k).push(message));
    }
    lemma_front_and_rest(after, k);
}

} // verus!
