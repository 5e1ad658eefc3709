use nes_network::lifecycle::ChannelHandlerStatus;
use nes_network::protocol::{DataChannelRequest, DataChannelResponse, TupleBuffer};
use nes_network::receiver_handler::{after_push, PushOutcome, ReceiverAction, ReceiverHandler, ReceiverStep};

fn buffer(seq: u64, data: &[u8]) -> TupleBuffer {
    TupleBuffer {
        sequence_number: seq,
        origin_id: 1,
        watermark: 0,
        chunk_number: 0,
        number_of_tuples: 1,
        last_chunk: false,
        encoded_data: false,
        encoded_children: vec![],
        data: data.to_vec(),
        child_buffers: vec![],
    }
}

#[test]
fn buffers_are_delivered_in_order_and_acknowledged() {
    let mut h = ReceiverHandler::new();
    let mut delivered = vec![];
    for (seq, data) in [(1u64, &b"A"[..]), (2, &b"BB"[..]), (3, &b"CCC"[..])] {
        assert_eq!(h.next_step(), ReceiverStep::ReadNetwork);
        assert!(h.on_message(DataChannelRequest::Data(buffer(seq, data))).is_none());
        assert_eq!(h.next_step(), ReceiverStep::PushDownstream);
        let b = h.take_for_delivery().unwrap();
        let key = b.sequence();
        delivered.push(b.data);
        match after_push(key, PushOutcome::Accepted) {
            ReceiverAction::Acknowledge(DataChannelResponse::AckData(k)) => assert_eq!(k, (1, seq, 0)),
            _ => panic!("expected an ack"),
        }
    }
    assert_eq!(delivered, vec![b"A".to_vec(), b"BB".to_vec(), b"CCC".to_vec()]);
    assert!(h.take_for_delivery().is_none());
}

#[test]
fn close_from_sender_ends_the_handler() {
    let mut h = ReceiverHandler::new();
    assert_eq!(h.on_message(DataChannelRequest::Close), Some(ChannelHandlerStatus::ClosedByOtherSide));
}

#[test]
fn closed_downstream_queue_propagates_close() {
    assert!(matches!(after_push((1, 1, 0), PushOutcome::QueueClosed), ReceiverAction::PropagateClose));
    assert!(matches!(
        after_push((1, 1, 0), PushOutcome::Cancelled),
        ReceiverAction::Stop(ChannelHandlerStatus::Cancelled)
    ));
}
