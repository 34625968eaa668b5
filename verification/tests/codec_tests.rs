use bytes::{Buf, BufMut, BytesMut};
use synod::messages::{Message, MessageType, PaxosError};

#[test]
fn hello_world() {
    let x: [u8; 2] = [1, 2];
    let mut bytes = BytesMut::with_capacity(6);
    bytes.put_u16(MessageType::Connect.tag());
    bytes.put_u32(0);

    let mut vec1: Vec<Message> = vec![];
    let _ = Message::from_bytes(&mut bytes, &mut vec1);

    println!("{:?}", vec1);
    let _ = x;
}

fn round_trip(m: Message) {
    let frame = m.to_bytes();
    let mut buf = BytesMut::new();
    buf.put_slice(&frame);
    let mut out: Vec<Message> = vec![];
    assert_eq!(Message::from_bytes(&mut buf, &mut out), Ok(1));
    assert_eq!(out, vec![m]);
    assert_eq!(buf.len(), 0);
}

#[test]
fn every_variant_round_trips() {
    round_trip(Message::Connect);
    round_trip(Message::Ack);
    round_trip(Message::Prepare { ballot: 9 });
    round_trip(Message::Promise { promised: true, ballot: 9, adopted: None });
    round_trip(Message::Promise { promised: false, ballot: 3, adopted: None });
    round_trip(Message::Promise { promised: true, ballot: 9, adopted: Some((5, 42)) });
    round_trip(Message::Accept { ballot: 9, value: 42 });
    round_trip(Message::Confirm { ballot: 9, value: 42 });
    round_trip(Message::Learn { ballot: 1, value: 7 });
    round_trip(Message::Learn { ballot: u64::MAX, value: u64::MAX });
}

#[test]
fn frame_layout_is_tag_length_payload() {
    let frame = Message::Prepare { ballot: 0x0102030405060708 }.to_bytes();
    assert_eq!(
        frame,
        vec![0, 3, 0, 0, 0, 8, 1, 2, 3, 4, 5, 6, 7, 8]
    );
}

#[test]
fn partial_frame_is_not_consumed() {
    let frame = Message::Accept { ballot: 9, value: 42 }.to_bytes();
    let mut buf = BytesMut::new();
    buf.put_slice(&frame[..5]);
    let mut out: Vec<Message> = vec![];
    assert_eq!(Message::from_bytes(&mut buf, &mut out), Ok(0));
    assert_eq!(buf.len(), 5);
    assert!(out.is_empty());

    buf.put_slice(&frame[5..]);
    assert_eq!(Message::from_bytes(&mut buf, &mut out), Ok(1));
    assert_eq!(out, vec![Message::Accept { ballot: 9, value: 42 }]);
    assert_eq!(buf.len(), 0);
}

#[test]
fn unknown_tag_is_a_decode_error() {
    let mut buf = BytesMut::new();
    buf.put_u16(9);
    buf.put_u32(0);
    let mut out: Vec<Message> = vec![];
    assert_eq!(
        Message::from_bytes(&mut buf, &mut out),
        Err(PaxosError::DecodeError)
    );
    assert_eq!(buf.len(), 6);
    assert!(out.is_empty());
}

#[test]
fn wrong_payload_length_is_a_decode_error() {
    let mut buf = BytesMut::new();
    buf.put_u16(MessageType::Proposal.tag());
    buf.put_u32(0);
    let mut out: Vec<Message> = vec![];
    assert_eq!(
        Message::from_bytes(&mut buf, &mut out),
        Err(PaxosError::DecodeError)
    );
}

#[test]
fn bad_promise_flag_is_a_decode_error() {
    let mut buf = BytesMut::new();
    buf.put_u16(MessageType::Promise.tag());
    buf.put_u32(10);
    buf.put_u8(2);
    buf.put_u64(9);
    buf.put_u8(0);
    let mut out: Vec<Message> = vec![];
    assert_eq!(
        Message::from_bytes(&mut buf, &mut out),
        Err(PaxosError::DecodeError)
    );
}

#[test]
fn two_frames_decode_one_at_a_time() {
    let mut buf = BytesMut::new();
    buf.put_slice(&Message::Connect.to_bytes());
    buf.put_slice(&Message::Learn { ballot: 1, value: 7 }.to_bytes());
    let mut out: Vec<Message> = vec![];
    assert_eq!(Message::from_bytes(&mut buf, &mut out), Ok(1));
    assert_eq!(Message::from_bytes(&mut buf, &mut out), Ok(1));
    assert_eq!(Message::from_bytes(&mut buf, &mut out), Ok(0));
    assert_eq!(out, vec![Message::Connect, Message::Learn { ballot: 1, value: 7 }]);
    assert!(!buf.has_remaining());
}

#[test]
fn tags_round_trip() {
    for t in [
        MessageType::Connect,
        MessageType::Ack,
        MessageType::Proposal,
        MessageType::Promise,
        MessageType::Accept,
        MessageType::Confirm,
        MessageType::Learn,
    ] {
        assert_eq!(MessageType::from_tag(t.tag()), Some(t));
    }
    assert_eq!(MessageType::from_tag(0), None);
    assert_eq!(MessageType::from_tag(8), None);
}
