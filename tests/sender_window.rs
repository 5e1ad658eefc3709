use nes_network::lifecycle::{ChannelHandlerStatus, ErrorOrStatus, HandlerError};
use nes_network::protocol::{DataChannelResponse, TupleBuffer};
use nes_network::sender_window::SenderWindow;

fn buffer(origin: u64, seq: u64, chunk: u64, data: &[u8]) -> TupleBuffer {
    TupleBuffer {
        sequence_number: seq,
        origin_id: origin,
        watermark: 0,
        chunk_number: chunk,
        number_of_tuples: 1,
        last_chunk: true,
        encoded_data: false,
        encoded_children: vec![],
        data: data.to_vec(),
        child_buffers: vec![],
    }
}

/// Feeds every buffer the window lets go and returns them in order.
fn send_all(w: &mut SenderWindow) -> Vec<TupleBuffer> {
    let mut sent = vec![];
    while let Some(b) = w.next_to_send() {
        sent.push(b.clone());
        w.commit_front();
    }
    sent
}

#[test]
fn sequence_is_origin_seq_chunk() {
    let b = buffer(7, 8, 9, b"x");
    assert_eq!(b.sequence(), (7, 8, 9));
}

#[test]
fn one_channel_three_buffers() {
    let mut w = SenderWindow::new(64);
    w.submit(buffer(1, 1, 0, b"A")).unwrap();
    w.submit(buffer(1, 2, 0, b"BB")).unwrap();
    w.submit(buffer(1, 3, 0, b"CCC")).unwrap();
    assert!(!w.flush_status());
    let sent = send_all(&mut w);
    let payloads: Vec<Vec<u8>> = sent.iter().map(|b| b.data.clone()).collect();
    assert_eq!(payloads, vec![b"A".to_vec(), b"BB".to_vec(), b"CCC".to_vec()]);
    assert_eq!(w.in_flight_len(), 3);
    for seq in 1..=3 {
        w.handle_response(DataChannelResponse::AckData((1, seq, 0))).unwrap();
    }
    assert!(w.flush_status());
}

#[test]
fn flush_on_idle_channel_is_true() {
    let w = SenderWindow::new(64);
    assert!(w.flush_status());
    assert!(w.flush_status());
    assert_eq!(w.pending_len(), 0);
    assert_eq!(w.in_flight_len(), 0);
}

#[test]
fn window_saturates_at_max_pending_acks() {
    let mut w = SenderWindow::new(4);
    for seq in 1..=16 {
        w.submit(buffer(1, seq, 0, b"x")).unwrap();
    }
    let sent = send_all(&mut w);
    assert_eq!(sent.len(), 4);
    assert_eq!(w.in_flight_len(), 4);
    assert_eq!(w.pending_len(), 12);
    assert!(!w.should_send_pending());
    assert!(!w.should_read_from_software());
    assert!(w.should_read_from_other_side());
    assert!(w.should_flush_first());
    // one ack opens one slot
    w.handle_response(DataChannelResponse::AckData((1, 1, 0))).unwrap();
    assert!(w.should_read_from_software());
    let sent = send_all(&mut w);
    assert_eq!(sent.len(), 1);
    assert_eq!(sent[0].sequence_number, 5);
    assert_eq!(w.in_flight_len(), 4);
}

#[test]
fn idle_window_reads_software_but_not_network() {
    let w = SenderWindow::new(2);
    assert!(w.should_read_from_software());
    assert!(!w.should_read_from_other_side());
    assert!(!w.should_send_pending());
    assert!(w.should_flush_first());
    assert!(w.next_to_send().is_none());
    assert_eq!(w.max_pending_acks(), 2);
}

#[test]
fn duplicate_live_sequence_is_refused() {
    let mut w = SenderWindow::new(4);
    w.submit(buffer(1, 1, 0, b"a")).unwrap();
    assert!(matches!(w.submit(buffer(1, 1, 0, b"b")), Err(HandlerError::DuplicateSequence((1, 1, 0)))));
    send_all(&mut w);
    assert!(matches!(w.submit(buffer(1, 1, 0, b"c")), Err(HandlerError::DuplicateSequence((1, 1, 0)))));
    assert_eq!(w.pending_len(), 0);
    assert_eq!(w.in_flight_len(), 1);
    // once acknowledged, the key is free again
    w.handle_response(DataChannelResponse::AckData((1, 1, 0))).unwrap();
    assert!(w.submit(buffer(1, 1, 0, b"d")).is_ok());
}

#[test]
fn unknown_ack_or_nack_is_a_protocol_error() {
    let mut w = SenderWindow::new(4);
    w.submit(buffer(1, 1, 0, b"a")).unwrap();
    assert!(matches!(
        w.handle_response(DataChannelResponse::AckData((1, 1, 0))),
        Err(ErrorOrStatus::Error(HandlerError::UnknownSequence((1, 1, 0))))
    ));
    assert!(matches!(
        w.handle_response(DataChannelResponse::NAckData((9, 9, 9))),
        Err(ErrorOrStatus::Error(HandlerError::UnknownSequence((9, 9, 9))))
    ));
    assert_eq!(w.pending_len(), 1);
}

#[test]
fn close_from_peer_ends_the_handler() {
    let mut w = SenderWindow::new(4);
    assert!(matches!(
        w.handle_response(DataChannelResponse::Close),
        Err(ErrorOrStatus::Status(ChannelHandlerStatus::ClosedByOtherSide))
    ));
}

#[test]
fn nack_requeues_behind_later_submissions() {
    let mut w = SenderWindow::new(4);
    w.submit(buffer(1, 1, 0, b"a")).unwrap();
    w.submit(buffer(1, 2, 0, b"b")).unwrap();
    send_all(&mut w);
    w.submit(buffer(1, 3, 0, b"c")).unwrap();
    w.handle_response(DataChannelResponse::NAckData((1, 1, 0))).unwrap();
    assert_eq!(w.in_flight_len(), 1);
    let sent = send_all(&mut w);
    let seqs: Vec<u64> = sent.iter().map(|b| b.sequence_number).collect();
    assert_eq!(seqs, vec![3, 1]);
}

#[test]
fn reconnect_resends_unacked_in_order() {
    let mut w = SenderWindow::new(8);
    for seq in 1..=7 {
        w.submit(buffer(1, seq, 0, b"x")).unwrap();
    }
    // five depart, the first four are acknowledged, then the stream drops
    let mut departed = 0;
    while departed < 5 {
        assert!(w.next_to_send().is_some());
        w.commit_front();
        departed += 1;
    }
    for seq in 1..=4 {
        w.handle_response(DataChannelResponse::AckData((1, seq, 0))).unwrap();
    }
    w.requeue_unacked();
    assert_eq!(w.in_flight_len(), 0);
    let sent = send_all(&mut w);
    let seqs: Vec<u64> = sent.iter().map(|b| b.sequence_number).collect();
    assert_eq!(seqs, vec![5, 6, 7]);
    for seq in 5..=7 {
        w.handle_response(DataChannelResponse::AckData((1, seq, 0))).unwrap();
    }
    assert!(w.flush_status());
}

#[test]
fn failed_feed_keeps_the_buffer_pending() {
    let mut w = SenderWindow::new(4);
    w.submit(buffer(1, 1, 0, b"a")).unwrap();
    // a feed that fails or is cancelled never calls commit_front
    let first = w.next_to_send().unwrap().sequence();
    assert_eq!(first, (1, 1, 0));
    assert_eq!(w.pending_len(), 1);
    assert_eq!(w.in_flight_len(), 0);
    assert_eq!(w.next_to_send().unwrap().sequence(), first);
}

#[test]
fn child_buffers_must_not_be_empty() {
    let mut b = buffer(1, 1, 0, b"x");
    assert!(b.has_nonempty_children());
    b.child_buffers = vec![vec![1, 2], vec![3]];
    assert!(b.has_nonempty_children());
    b.child_buffers.push(vec![]);
    assert!(!b.has_nonempty_children());
}
