use std::sync::mpsc::{channel, Receiver};

use streamfwd::endpoint::Destination;
use streamfwd::message::WriteRequest;
use streamfwd::resolver::{find_dest, Lookup};
use streamfwd::worker::{start_rx, StopReason, Worker, WorkerAction, WorkerEvent, WorkerState};
use streamfwd::writer::{stop_outcome, write_outcome, ChannelClosedError, StreamingWriter};

fn loopback() -> Destination {
    Destination::V4 { octets: [127, 0, 0, 1], port: 9999 }
}

/// Runs the worker on what the queue holds until it exits; the transport
/// accepts every datagram.
fn drain(worker: &mut Worker, rx: &Receiver<WriteRequest>) -> Vec<Vec<u8>> {
    let mut sent = Vec::new();
    loop {
        let event = match rx.try_recv() {
            Ok(request) => WorkerEvent::Received(request),
            Err(_) => WorkerEvent::ChannelClosed,
        };
        match worker.step(event) {
            WorkerAction::Transmit(bytes) => sent.push(bytes),
            WorkerAction::Exit => return sent,
        }
    }
}

#[test]
fn write_returns_length_and_enqueues_a_copy() {
    let (tx, rx) = channel();
    let mut writer = StreamingWriter::new(loopback(), tx);
    assert_eq!(writer.socket_addr(), loopback());
    let mut payload = vec![104, 101, 108, 108, 111];
    assert_eq!(writer.write(&payload), Ok(5));
    payload[0] = 0;
    assert_eq!(rx.try_recv().ok(), Some(WriteRequest::Content(vec![104, 101, 108, 108, 111])));
    assert!(rx.try_recv().is_err());
    assert_eq!(writer.write(b""), Ok(0));
    assert_eq!(rx.try_recv().ok(), Some(WriteRequest::Content(Vec::new())));
}

#[test]
fn flush_always_succeeds_and_enqueues_nothing() {
    let (tx, rx) = channel();
    let mut writer = StreamingWriter::new(loopback(), tx);
    assert_eq!(writer.flush(), Ok(()));
    assert!(rx.try_recv().is_err());
    drop(rx);
    assert_eq!(writer.flush(), Ok(()));
}

#[test]
fn stop_enqueues_one_sentinel() {
    let (tx, rx) = channel();
    let mut writer = StreamingWriter::new(loopback(), tx);
    assert_eq!(writer.stop_rx(), Ok(()));
    assert_eq!(rx.try_recv().ok(), Some(WriteRequest::Done));
    assert!(rx.try_recv().is_err());
}

#[test]
fn write_fails_once_the_receiver_is_gone() {
    let (tx, rx) = channel();
    let mut writer = StreamingWriter::new(loopback(), tx);
    drop(rx);
    assert_eq!(writer.write(b"late"), Err(ChannelClosedError));
    assert_eq!(writer.stop_rx(), Err(ChannelClosedError));
    assert_eq!(write_outcome(true, 7), Ok(7));
    assert_eq!(write_outcome(false, 7), Err(ChannelClosedError));
    assert_eq!(stop_outcome(true), Ok(()));
    assert_eq!(stop_outcome(false), Err(ChannelClosedError));
}

#[test]
fn worker_starts_running_and_bound() {
    let worker = start_rx(loopback());
    assert_eq!(worker.state(), WorkerState::Running);
    assert!(worker.is_running());
    assert_eq!(worker.destination(), loopback());
}

#[test]
fn worker_transmits_each_payload_unchanged() {
    let mut worker = start_rx(loopback());
    assert_eq!(
        worker.step(WorkerEvent::Received(WriteRequest::Content(vec![1, 2, 3]))),
        WorkerAction::Transmit(vec![1, 2, 3])
    );
    assert_eq!(worker.state(), WorkerState::Running);
    assert_eq!(
        worker.step(WorkerEvent::Received(WriteRequest::Content(Vec::new()))),
        WorkerAction::Transmit(Vec::new())
    );
    assert_eq!(worker.state(), WorkerState::Running);
    assert_eq!(worker.destination(), loopback());
}

#[test]
fn worker_stops_on_done() {
    let mut worker = start_rx(loopback());
    assert_eq!(worker.step(WorkerEvent::Received(WriteRequest::Done)), WorkerAction::Exit);
    assert_eq!(worker.state(), WorkerState::Stopped(StopReason::Done));
    assert!(!worker.is_running());
}

#[test]
fn worker_stops_when_the_channel_closes() {
    let mut worker = start_rx(loopback());
    assert_eq!(worker.step(WorkerEvent::ChannelClosed), WorkerAction::Exit);
    assert_eq!(worker.state(), WorkerState::Stopped(StopReason::ChannelClosed));
}

#[test]
fn worker_stops_when_a_transmission_fails() {
    let mut worker = start_rx(loopback());
    assert_eq!(
        worker.step(WorkerEvent::Received(WriteRequest::Content(vec![9]))),
        WorkerAction::Transmit(vec![9])
    );
    assert_eq!(worker.step(WorkerEvent::TransmitFailed), WorkerAction::Exit);
    assert_eq!(worker.state(), WorkerState::Stopped(StopReason::TransmitFailed));
}

#[test]
fn stopped_worker_transmits_nothing_more() {
    let mut worker = start_rx(loopback());
    worker.step(WorkerEvent::Received(WriteRequest::Done));
    assert_eq!(worker.step(WorkerEvent::Received(WriteRequest::Content(vec![1]))), WorkerAction::Exit);
    assert_eq!(worker.step(WorkerEvent::ChannelClosed), WorkerAction::Exit);
    assert_eq!(worker.step(WorkerEvent::TransmitFailed), WorkerAction::Exit);
    assert_eq!(worker.step(WorkerEvent::Received(WriteRequest::Done)), WorkerAction::Exit);
    assert_eq!(worker.state(), WorkerState::Stopped(StopReason::Done));
}

#[test]
fn payloads_arrive_in_order_and_nothing_follows_the_sentinel() {
    let (tx, rx) = channel();
    let mut writer = StreamingWriter::new(loopback(), tx);
    assert_eq!(writer.write(b"one"), Ok(3));
    assert_eq!(writer.write(b""), Ok(0));
    assert_eq!(writer.write(b"three"), Ok(5));
    assert_eq!(writer.stop_rx(), Ok(()));
    assert_eq!(writer.write(b"too late"), Ok(8));
    let mut worker = start_rx(writer.socket_addr());
    let sent = drain(&mut worker, &rx);
    assert_eq!(sent, vec![b"one".to_vec(), Vec::new(), b"three".to_vec()]);
    assert_eq!(worker.state(), WorkerState::Stopped(StopReason::Done));
    // what was enqueued behind the sentinel is still in the queue, unread
    assert_eq!(rx.try_recv().ok(), Some(WriteRequest::Content(b"too late".to_vec())));
}

#[test]
fn dropped_handle_ends_the_worker_cleanly() {
    let (tx, rx) = channel();
    let mut writer = StreamingWriter::new(loopback(), tx);
    assert_eq!(writer.write(b"only"), Ok(4));
    drop(writer);
    let mut worker = start_rx(loopback());
    let sent = drain(&mut worker, &rx);
    assert_eq!(sent, vec![b"only".to_vec()]);
    assert_eq!(worker.state(), WorkerState::Stopped(StopReason::ChannelClosed));
}

#[test]
fn hello_goes_out_as_one_datagram_to_the_configured_endpoint() {
    let lookup = Lookup::Found(vec![Destination::V4 { octets: [93, 184, 216, 34], port: 0 }]);
    let destination = match find_dest(Some("example.com:9999"), None, &lookup) {
        Some(Ok(destination)) => destination,
        other => panic!("not resolved: {:?}", other),
    };
    assert_eq!(destination.port(), 9999);
    let (tx, rx) = channel();
    let mut writer = StreamingWriter::new(destination, tx);
    assert_eq!(writer.write(b"hello"), Ok(5));
    assert_eq!(writer.stop_rx(), Ok(()));
    let mut worker = start_rx(destination);
    assert_eq!(worker.destination(), Destination::V4 { octets: [93, 184, 216, 34], port: 9999 });
    let sent = drain(&mut worker, &rx);
    assert_eq!(sent, vec![vec![b'h', b'e', b'l', b'l', b'o']]);
    assert!(!worker.is_running());
}

#[test]
fn destination_port_can_be_replaced() {
    let d = Destination::V6 { segments: [1, 2, 3, 4, 5, 6, 7, 8], port: 1, flowinfo: 2, scope_id: 3 };
    assert_eq!(d.port(), 1);
    assert_eq!(
        d.with_port(9),
        Destination::V6 { segments: [1, 2, 3, 4, 5, 6, 7, 8], port: 9, flowinfo: 2, scope_id: 3 }
    );
    assert_eq!(loopback().with_port(1), Destination::V4 { octets: [127, 0, 0, 1], port: 1 });
}
