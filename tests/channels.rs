use nes_network::channels::{ChannelCommand, ReceiverChannel, ReceiverChannelResult, SenderChannel, ServiceClosed, TrySendDataResult};
use nes_network::lifecycle::ChannelHandlerStatus;
use nes_network::protocol::{DataChannelRequest, DataChannelResponse, TupleBuffer};
use nes_network::receiver_handler::{after_push, PushOutcome, ReceiverAction, ReceiverHandler};
use nes_network::sender_window::SenderWindow;

fn buffer(seq: u64, data: &[u8]) -> TupleBuffer {
    TupleBuffer {
        sequence_number: seq,
        origin_id: 1,
        watermark: 0,
        chunk_number: 0,
        number_of_tuples: 1,
        last_chunk: false,
        encoded_data: false,
        encoded_children: vec![],
        data: data.to_vec(),
        child_buffers: vec![vec![1]],
    }
}

#[test]
fn full_queue_hands_the_buffer_back() {
    let (tx, rx) = async_channel::bounded::<ChannelCommand>(2);
    let channel = SenderChannel::from_queue(tx);
    assert!(matches!(channel.try_send_data(buffer(1, b"a")), TrySendDataResult::Sent));
    assert!(matches!(channel.try_send_data(buffer(2, b"b")), TrySendDataResult::Sent));
    let back = match channel.try_send_data(buffer(3, b"c")) {
        TrySendDataResult::Full(b) => b,
        other => panic!("expected Full, got {:?}", other),
    };
    assert_eq!(back.sequence_number, 3);
    assert_eq!(back.data, b"c".to_vec());
    // once the handler takes one, the same buffer goes in
    assert!(rx.try_recv().is_ok());
    assert!(matches!(channel.try_send_data(back), TrySendDataResult::Sent));
}

#[test]
fn closed_queue_hands_the_buffer_back() {
    let (tx, rx) = async_channel::bounded::<ChannelCommand>(2);
    drop(rx);
    let channel = SenderChannel::from_queue(tx);
    match channel.try_send_data(buffer(1, b"z")) {
        TrySendDataResult::Closed(b) => assert_eq!(b.data, b"z".to_vec()),
        other => panic!("expected Closed, got {:?}", other),
    }
    assert_eq!(channel.flush(), Err(ServiceClosed));
}

#[test]
fn sender_close_reports_that_it_closed() {
    let (tx, rx) = async_channel::bounded::<ChannelCommand>(2);
    let channel = SenderChannel::from_queue(tx.clone());
    assert!(channel.close());
    // the queue is closed now; closing it again does nothing
    assert!(!tx.close());
    assert!(rx.is_closed());
}

#[test]
fn receiver_close_is_idempotent() {
    let (tx, rx) = async_channel::bounded::<TupleBuffer>(10);
    let channel = ReceiverChannel::from_queue(rx);
    channel.close();
    channel.close();
    assert!(matches!(channel.receive(), ReceiverChannelResult::Closed));
    assert!(tx.try_send(buffer(1, b"a")).is_err());
}

#[test]
fn graceful_software_close_end_to_end() {
    // sender side
    let mut window = SenderWindow::new(64);
    for (seq, data) in [(1u64, &b"A"[..]), (2, &b"BB"[..]), (3, &b"CCC"[..])] {
        window.submit(buffer(seq, data)).unwrap();
    }
    let mut stream = vec![];
    while let Some(b) = window.next_to_send() {
        stream.push(DataChannelRequest::Data(b.clone()));
        window.commit_front();
    }
    // the software closed its queue: the handler sends Close last
    stream.push(DataChannelRequest::Close);

    // receiver side, with its downstream queue
    let (downstream, rx) = async_channel::bounded::<TupleBuffer>(10);
    let software = ReceiverChannel::from_queue(rx);
    let mut handler = ReceiverHandler::new();
    let mut acks = vec![];
    let mut status = None;
    for message in stream {
        if let Some(s) = handler.on_message(message) {
            status = Some(s);
            break;
        }
        let b = handler.take_for_delivery().unwrap();
        let key = b.sequence();
        let outcome = if downstream.try_send(b).is_ok() { PushOutcome::Accepted } else { PushOutcome::QueueClosed };
        match after_push(key, outcome) {
            ReceiverAction::Acknowledge(ack) => acks.push(ack),
            _ => panic!("the queue has room"),
        }
    }
    assert_eq!(status, Some(ChannelHandlerStatus::ClosedByOtherSide));
    // a closed channel closes the downstream queue
    downstream.close();
    for ack in acks {
        window.handle_response(ack).unwrap();
    }
    assert!(window.flush_status());
    let mut seen = vec![];
    loop {
        match software.receive() {
            ReceiverChannelResult::Buffer(b) => seen.push(b.data),
            ReceiverChannelResult::Closed => break,
            ReceiverChannelResult::Error(e) => panic!("{}", e),
        }
    }
    assert_eq!(seen, vec![b"A".to_vec(), b"BB".to_vec(), b"CCC".to_vec()]);
}

#[test]
fn slow_consumer_saturates_the_window() {
    let mut window = SenderWindow::new(4);
    let (downstream, _rx) = async_channel::bounded::<TupleBuffer>(2);
    let mut handler = ReceiverHandler::new();
    for seq in 1..=16 {
        window.submit(buffer(seq, b"x")).unwrap();
    }
    let mut stream = vec![];
    while let Some(b) = window.next_to_send() {
        stream.push(b.clone());
        window.commit_front();
    }
    let mut acked = 0;
    for b in stream {
        handler.on_message(DataChannelRequest::Data(b));
        let b = handler.take_for_delivery().unwrap();
        let key = b.sequence();
        if downstream.try_send(b).is_ok() {
            if let ReceiverAction::Acknowledge(DataChannelResponse::AckData(k)) = after_push(key, PushOutcome::Accepted) {
                window.handle_response(DataChannelResponse::AckData(k)).unwrap();
                acked += 1;
            }
        }
    }
    // the downstream queue holds two; the other two stay unacknowledged
    assert_eq!(acked, 2);
    while let Some(_) = window.next_to_send() {
        window.commit_front();
    }
    assert_eq!(window.in_flight_len(), 4);
    assert!(!window.should_read_from_software());
    assert_eq!(window.pending_len(), 10);
}
