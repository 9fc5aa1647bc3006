//! The messages that travel from the producer to the background worker.

use vstd::prelude::*;

verus! {

/// One item of the outbound queue.
#[derive(Clone, Debug, PartialEq, Eq)]
pub enum WriteRequest {
    /// A payload to transmit verbatim as one datagram.
    Content(Vec<u8>),
    /// End of stream: nothing enqueued after it is transmitted.
    Done,
}

/// The mathematical value of a [`WriteRequest`].
pub enum Message {
    Content(Seq<u8>),
    Done,
}

impl View for WriteRequest {
    type V = Message;

    open spec fn view(&self) -> Message {
        match self {
            WriteRequest::Content(bytes) => Message::Content(bytes@),
            WriteRequest::Done => Message::Done,
        }
    }
}

/// The queue that carries `Content` for each payload, in order.
pub open spec fn contents(payloads: Seq<Seq<u8>>) -> Seq<Message> {
    Seq::new(payloads.len(), |i: int| Message::Content(payloads[i]))
}

/// Enqueueing one more payload adds its `Content` at the end of the queue.
pub proof fn lemma_contents_push(payloads: Seq<Seq<u8>>, payload: Seq<u8>)
    ensures
        contents(payloads.push(payload)) == contents(payloads).push(Message::Content(payload)),
{
    assert(contents(payloads.push(payload)) =~= contents(payloads).push(Message::Content(payload)));
}

} // verus!
