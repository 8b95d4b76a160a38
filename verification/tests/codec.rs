use bytes::{Bytes, BytesMut};
use topic_broadcast::codec::{CodecError, LengthPrefixedCodec};
use topic_broadcast::types::{DecodeError, Message, Topic};
use topic_broadcast::varint::VarintError;

fn encoded(msg: Message) -> Vec<u8> {
    let mut codec = LengthPrefixedCodec::new(1024);
    let mut dst = BytesMut::new();
    assert_eq!(codec.encode(msg, &mut dst), Ok(()));
    dst.to_vec()
}

#[test]
fn subscribe_frame() {
    let frame = encoded(Message::Subscribe(Topic::new(b"foo")));
    assert_eq!(frame, vec![4, 0b0000_1100, b'f', b'o', b'o']);
}

#[test]
fn broadcast_frame() {
    let frame = encoded(Message::Broadcast(Topic::new(b"t"), Bytes::from_static(b"hi")));
    assert_eq!(frame, vec![4, 5, b't', b'h', b'i']);
}

#[test]
fn encode_appends_to_what_is_there() {
    let mut codec = LengthPrefixedCodec::new(1024);
    let mut dst = BytesMut::from(&[9u8, 9][..]);
    codec.encode(Message::Subscribe(Topic::new(b"a")), &mut dst).unwrap();
    codec.encode(Message::Unsubscribe(Topic::new(b"b")), &mut dst).unwrap();
    assert_eq!(dst.to_vec(), vec![9, 9, 2, 1 << 2, b'a', 2, (1 << 2) | 2, b'b']);
}

#[test]
fn long_payload_has_a_two_byte_prefix() {
    let data = vec![7u8; 298];
    let frame = encoded(Message::Broadcast(Topic::new(b"t"), Bytes::from(data.clone())));
    // 300 = 0b10_0101100: low group 0101100 with the high bit set, then 10.
    assert_eq!(&frame[..2], &[0xAC, 0x02]);
    assert_eq!(frame.len(), 302);
    assert_eq!(frame[2], 5);
    assert_eq!(frame[3], b't');
    assert_eq!(&frame[4..], &data[..]);
}

#[test]
fn payload_of_127_and_128_bytes() {
    let frame = encoded(Message::Broadcast(Topic::new(b""), Bytes::from(vec![0u8; 126])));
    assert_eq!(frame[0], 127);
    assert_eq!(frame.len(), 128);
    let frame = encoded(Message::Broadcast(Topic::new(b""), Bytes::from(vec![0u8; 127])));
    assert_eq!(&frame[..2], &[0x80, 0x01]);
    assert_eq!(frame.len(), 130);
}

#[test]
fn decode_takes_one_frame_and_leaves_the_rest() {
    let mut codec = LengthPrefixedCodec::new(1024);
    let mut src = BytesMut::from(&[4u8, 5, b't', b'h', b'i', 2, 1 << 2, b'a', 9][..]);
    assert_eq!(
        codec.decode(&mut src),
        Ok(Some(Message::Broadcast(Topic::new(b"t"), Bytes::from_static(b"hi"))))
    );
    assert_eq!(src.to_vec(), vec![2, 1 << 2, b'a', 9]);
    assert_eq!(codec.decode(&mut src), Ok(Some(Message::Subscribe(Topic::new(b"a")))));
    assert_eq!(src.to_vec(), vec![9]);
    assert_eq!(codec.decode(&mut src), Ok(None));
    assert_eq!(src.to_vec(), vec![9]);
}

#[test]
fn empty_buffer_is_no_item() {
    let mut codec = LengthPrefixedCodec::new(1024);
    let mut src = BytesMut::new();
    assert_eq!(codec.decode(&mut src), Ok(None));
    assert!(src.is_empty());
}

#[test]
fn partial_frame_waits_and_loses_nothing() {
    let frame = encoded(Message::Broadcast(Topic::new(b"topic"), Bytes::from(vec![3u8; 200])));
    assert_eq!(frame.len(), 2 + 206);
    let mut codec = LengthPrefixedCodec::new(1024);
    let mut src = BytesMut::new();
    for (i, byte) in frame.iter().enumerate() {
        assert_eq!(codec.decode(&mut src), Ok(None));
        assert_eq!(src.to_vec(), &frame[..i]);
        src.extend_from_slice(&[*byte]);
    }
    assert_eq!(
        codec.decode(&mut src),
        Ok(Some(Message::Broadcast(Topic::new(b"topic"), Bytes::from(vec![3u8; 200]))))
    );
    assert!(src.is_empty());
}

#[test]
fn oversize_frame_is_rejected_before_its_payload_arrives() {
    let mut codec = LengthPrefixedCodec::new(1024);
    // 2000 = 0b1111_1010000
    let mut src = BytesMut::from(&[0xD0u8, 0x0F][..]);
    assert_eq!(
        codec.decode(&mut src),
        Err(CodecError::OversizeFrame { len: 2000, max: 1024 })
    );
    assert_eq!(src.to_vec(), vec![0xD0, 0x0F]);
}

#[test]
fn frame_of_exactly_the_maximum_is_accepted() {
    let mut codec = LengthPrefixedCodec::new(4);
    let mut src = BytesMut::from(&[4u8, 5, b't', b'h', b'i'][..]);
    assert_eq!(
        codec.decode(&mut src),
        Ok(Some(Message::Broadcast(Topic::new(b"t"), Bytes::from_static(b"hi"))))
    );
    let mut codec = LengthPrefixedCodec::new(3);
    let mut src = BytesMut::from(&[4u8, 5, b't', b'h', b'i'][..]);
    assert_eq!(codec.decode(&mut src), Err(CodecError::OversizeFrame { len: 4, max: 3 }));
    assert_eq!(src.len(), 5);
}

#[test]
fn length_prefix_with_a_trailing_zero_is_not_minimal() {
    let mut codec = LengthPrefixedCodec::new(1024);
    let mut src = BytesMut::from(&[0x80u8, 0x00, 1, 2][..]);
    assert_eq!(codec.decode(&mut src), Err(CodecError::Framing(VarintError::NotMinimal)));
    assert_eq!(src.len(), 4);
}

#[test]
fn length_prefix_that_never_ends_overflows() {
    let mut codec = LengthPrefixedCodec::new(1024);
    let mut src = BytesMut::from(&[0xFFu8; 12][..]);
    assert_eq!(codec.decode(&mut src), Err(CodecError::Framing(VarintError::Overflow)));
    assert_eq!(src.len(), 12);
}

#[test]
fn unfinished_length_prefix_waits() {
    let mut codec = LengthPrefixedCodec::new(1024);
    let mut src = BytesMut::from(&[0x80u8, 0x80, 0xFF][..]);
    assert_eq!(codec.decode(&mut src), Ok(None));
    assert_eq!(src.to_vec(), vec![0x80, 0x80, 0xFF]);
}

#[test]
fn bits_beyond_the_word_are_dropped() {
    if usize::BITS == 64 {
        let mut codec = LengthPrefixedCodec::new(1024);
        let mut src =
            BytesMut::from(&[0x80u8, 0x80, 0x80, 0x80, 0x80, 0x80, 0x80, 0x80, 0x80, 0x7F][..]);
        assert_eq!(
            codec.decode(&mut src),
            Err(CodecError::OversizeFrame { len: 1 << 63, max: 1024 })
        );
        // Nine bytes that all announce another one are no varint yet.
        let mut src = BytesMut::from(&[0x80u8; 9][..]);
        assert_eq!(codec.decode(&mut src), Ok(None));
        let mut src = BytesMut::from(&[0x80u8; 10][..]);
        assert_eq!(codec.decode(&mut src), Err(CodecError::Framing(VarintError::Overflow)));
    }
}

#[test]
fn frame_with_a_bad_payload_is_an_error_and_leaves_the_buffer() {
    let mut codec = LengthPrefixedCodec::new(1024);
    // An empty payload.
    let mut src = BytesMut::from(&[0u8, 7][..]);
    assert_eq!(codec.decode(&mut src), Err(CodecError::MessageDecode(DecodeError::Empty)));
    assert_eq!(src.to_vec(), vec![7]);
    // The reserved type code.
    let mut src = BytesMut::from(&[1u8, 3, 7][..]);
    assert_eq!(codec.decode(&mut src), Err(CodecError::MessageDecode(DecodeError::InvalidHeader)));
    assert_eq!(src.to_vec(), vec![7]);
    // A topic that runs past the frame, though not past the buffer.
    let mut src = BytesMut::from(&[1u8, 1 << 2, b'a'][..]);
    assert_eq!(
        codec.decode(&mut src),
        Err(CodecError::MessageDecode(DecodeError::TopicOutOfRange))
    );
    assert_eq!(src.to_vec(), vec![b'a']);
}

#[test]
fn frame_roundtrip() {
    let msgs = [
        Message::Subscribe(Topic::new(b"topic")),
        Message::Unsubscribe(Topic::new(b"")),
        Message::Broadcast(Topic::new(b"topic"), Bytes::from_static(b"content")),
        Message::Broadcast(Topic::new(&[0xFF; 63]), Bytes::from(vec![0x80u8; 500])),
    ];
    let mut codec = LengthPrefixedCodec::new(1024);
    let mut buf = BytesMut::new();
    for msg in &msgs {
        codec.encode(msg.clone(), &mut buf).unwrap();
    }
    for msg in &msgs {
        assert_eq!(codec.decode(&mut buf), Ok(Some(msg.clone())));
    }
    assert_eq!(codec.decode(&mut buf), Ok(None));
    assert!(buf.is_empty());
}
