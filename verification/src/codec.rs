//! The wire codec: frames on a byte stream.
//!
//! A frame is the varint of the payload's length followed by the payload.
//! The decoder works on a growing buffer that may hold no frame yet, one, or
//! many, and takes a frame out only once all of it is there.

use crate::buffer::{
    buffer_advance, buffer_as_slice, buffer_contents, buffer_extend_from_slice, buffer_split_to,
};
use crate::types::{DecodeError, Message, MessageView, parse_payload};
use crate::varint::{VarintError, decode_usize, encode_usize};
use bytes::BytesMut;
use vstd::prelude::*;

verus! {

/// Why the bytes at the start of a buffer are no frame with a message.
#[derive(Clone, Copy, Debug, PartialEq, Eq, Structural)]
pub enum CodecError {
    /// The length prefix is malformed.
    Framing(VarintError),
    /// The length prefix announces more bytes than the codec accepts.
    OversizeFrame { len: usize, max: usize },
    /// The frame is whole, but its payload is no message.
    MessageDecode(DecodeError),
}

/// The frame of a payload: the varint of its length, then the payload.
pub open spec fn frame(payload: Seq<u8>) -> Seq<u8> {
    crate::varint::encoding(payload.len()) + payload
}

/// What the start of `bytes` holds for a decoder that accepts payloads of up
/// to `max_size` bytes: no whole frame yet (`Ok(None)`), a frame's payload
/// with the number of bytes that the frame takes, or an error.
///
/// The announced length is held against `max_size` before the payload is
/// looked for, so an oversize frame is an error however few of its bytes
/// have arrived.
pub open spec fn parse_frame(bytes: Seq<u8>, max_size: usize) -> Result<
    Option<(Seq<u8>, nat)>,
    CodecError,
> {
    match crate::varint::decode(bytes) {
        Err(VarintError::Insufficient) => Ok(None),
        Err(e) => Err(CodecError::Framing(e)),
        Ok((len, prefix)) => if len > max_size {
            Err(CodecError::OversizeFrame { len, max: max_size })
        } else if bytes.len() < prefix + len {
            Ok(None)
        } else {
            Ok(Some((bytes.subrange(prefix as int, prefix + len), prefix + len as nat)))
        },
    }
}

/// What decoding the start of `bytes` gives, and how many bytes it takes
/// from the buffer. Only a whole frame is taken, whether or not its payload
/// is a message.
pub open spec fn decode_frame(bytes: Seq<u8>, max_size: usize) -> (
    Result<Option<MessageView>, CodecError>,
    nat,
) {
    match parse_frame(bytes, max_size) {
        Err(e) => (Err(e), 0),
        Ok(None) => (Ok(None), 0),
        Ok(Some((payload, consumed))) => match parse_payload(payload) {
            Ok(message) => (Ok(Some(message)), consumed),
            Err(e) => (Err(CodecError::MessageDecode(e)), consumed),
        },
    }
}

/// Whether `result` is `expected`, message by view.
pub open spec fn is_decoded(
    result: Result<Option<Message>, CodecError>,
    expected: Result<Option<MessageView>, CodecError>,
) -> bool {
    match (result, expected) {
        (Ok(None), Ok(None)) => true,
        (Ok(Some(message)), Ok(Some(view))) => message@ == view,
        (Err(e), Err(f)) => e == f,
        _ => false,
    }
}

/// The codec of one substream.
pub struct LengthPrefixedCodec {
    max_size: usize,
}

impl LengthPrefixedCodec {
    /// The longest payload that the decoder accepts.
    pub closed spec fn max_size(&self) -> usize {
        self.max_size
    }

    /// A codec whose decoder accepts payloads of up to `max_size` bytes.
    pub fn new(max_size: usize) -> (codec: Self)
        ensures
            codec.max_size() == max_size,
    {
        Self { max_size }
    }

    /// Takes the next message out of `src`, if a whole frame is there.
    ///
    /// Without a whole frame, and on a malformed or oversize length prefix,
    /// `src` is left as it is: no byte is dropped. A whole frame leaves `src`
    /// even when its payload is no message.
    pub fn decode(&mut self, src: &mut BytesMut) -> (result: Result<Option<Message>, CodecError>)
        ensures
            final(self).max_size() == old(self).max_size(),
            is_decoded(result, decode_frame(buffer_contents(*old(src)), old(self).max_size()).0),
            buffer_contents(*final(src)) == buffer_contents(*old(src)).skip(
                decode_frame(buffer_contents(*old(src)), old(self).max_size()).1 as int,
            ),
    {
        assert(buffer_contents(*src).skip(0) == buffer_contents(*src));
        let bytes = buffer_as_slice(src);
        let total = bytes.len();
        let (msg_len, remaining) = match decode_usize(bytes) {
            Ok((len, remaining)) => (len, remaining.len()),
            // Not enough bytes for the length yet: wait for more.
            Err(VarintError::Insufficient) => return Ok(None),
            Err(e) => return Err(CodecError::Framing(e)),
        };
        if msg_len > self.max_size {
            return Err(CodecError::OversizeFrame { len: msg_len, max: self.max_size });
        }
        // Take nothing before the whole frame is there.
        let varint_len = total - remaining;
        if remaining < msg_len {
            return Ok(None);
        }
        buffer_advance(src, varint_len);
        let msg = buffer_split_to(src, msg_len);
        assert(buffer_contents(msg) == buffer_contents(*old(src)).subrange(
            varint_len as int,
            varint_len + msg_len,
        ));
        assert(buffer_contents(*src) == buffer_contents(*old(src)).skip(varint_len + msg_len));
        match Message::from_bytes(buffer_as_slice(&msg)) {
            Ok(message) => Ok(Some(message)),
            Err(e) => Err(CodecError::MessageDecode(e)),
        }
    }

    /// Appends the frame of `item` to `dst`. It never fails.
    pub fn encode(&mut self, item: Message, dst: &mut BytesMut) -> (result: Result<(), CodecError>)
        ensures
            final(self).max_size() == old(self).max_size(),
            result is Ok,
            buffer_contents(*final(dst)) == buffer_contents(*old(dst)) + frame(item@.payload()),
    {
        let payload = item.to_bytes();
        let prefix = encode_usize(payload.len());
        buffer_extend_from_slice(dst, prefix.as_slice());
        buffer_extend_from_slice(dst, payload.as_slice());
        Ok(())
    }
}

/// A length prefix that announces more than `max_size` bytes is an error as
/// soon as the prefix is there, whether or not any of the payload has
/// arrived, and nothing is taken from the buffer.
pub proof fn lemma_oversize_frame_rejected(bytes: Seq<u8>, max_size: usize)
    requires
        match crate::varint::decode(bytes) {
            Ok((len, _)) => len > max_size,
            Err(_) => false,
        },
    ensures
        match crate::varint::decode(bytes) {
            Ok((len, _)) => decode_frame(bytes, max_size) == (
                Err::<Option<MessageView>, CodecError>(
                    CodecError::OversizeFrame { len, max: max_size },
                ),
                0nat,
            ),
            Err(_) => false,
        },
{
}

/// The same of the varint of any length above `max_size`, whatever follows
/// it.
pub proof fn lemma_oversize_length_rejected(len: usize, rest: Seq<u8>, max_size: usize)
    requires
        len > max_size,
    ensures
        decode_frame(crate::varint::encoding(len as nat) + rest, max_size) == (
            Err::<Option<MessageView>, CodecError>(
                CodecError::OversizeFrame { len, max: max_size },
            ),
            0nat,
        ),
{
    crate::varint::lemma_decode_encoding(len, rest);
}

/// A frame that is not all there yet is no error: the decoder waits, and
/// takes nothing from the buffer.
pub proof fn lemma_partial_frame_waits(payload: Seq<u8>, k: int, max_size: usize)
    requires
        payload.len() <= max_size,
        0 <= k < frame(payload).len(),
    ensures
        decode_frame(frame(payload).take(k), max_size) == (
            Ok::<Option<MessageView>, CodecError>(None),
            0nat,
        ),
{
    let len = payload.len() as usize;
    let prefix = crate::varint::encoding(len as nat);
    let bytes = frame(payload).take(k);
    if k < prefix.len() {
        assert(bytes == prefix.take(k));
        crate::varint::lemma_decode_cut(len, k);
    } else {
        let rest = payload.take(k - prefix.len());
        assert(bytes == prefix + rest);
        crate::varint::lemma_decode_encoding(len, rest);
    }
}

/// Decoding a frame gives its payload and takes the frame from the buffer,
/// whatever follows it.
pub proof fn lemma_frame_roundtrip(payload: Seq<u8>, rest: Seq<u8>, max_size: usize)
    requires
        payload.len() <= max_size,
    ensures
        parse_frame(frame(payload) + rest, max_size) == Ok::<Option<(Seq<u8>, nat)>, CodecError>(
            Some((payload, frame(payload).len())),
        ),
{
    let len = payload.len() as usize;
    let prefix = crate::varint::encoding(len as nat);
    let bytes = frame(payload) + rest;
    assert(bytes == prefix + (payload + rest));
    crate::varint::lemma_decode_encoding(len, payload + rest);
    assert(bytes.subrange(prefix.len() as int, prefix.len() + len) == payload);
}

/// Decoding what was encoded gives the message again and takes exactly its
/// frame from the buffer, as long as the topic's length fits the header and
/// the payload is not longer than the decoder accepts.
pub proof fn lemma_message_roundtrip(message: MessageView, rest: Seq<u8>, max_size: usize)
    requires
        message.fits_header(),
        message.payload().len() <= max_size,
    ensures
        decode_frame(frame(message.payload()) + rest, max_size) == (
            Ok::<Option<MessageView>, CodecError>(Some(message)),
            frame(message.payload()).len(),
        ),
{
    lemma_frame_roundtrip(message.payload(), rest, max_size);
    crate::types::lemma_payload_roundtrip(message);
}

/// A frame that arrives in two pieces loses nothing: on the first piece the
/// decoder waits and leaves the buffer alone, and once the second piece has
/// joined it, the message comes out and exactly its frame is taken.
pub proof fn lemma_delivery_in_pieces(
    message: MessageView,
    k: int,
    rest: Seq<u8>,
    max_size: usize,
)
    requires
        message.fits_header(),
        message.payload().len() <= max_size,
        0 <= k < frame(message.payload()).len(),
    ensures
        decode_frame(frame(message.payload()).take(k), max_size) == (
            Ok::<Option<MessageView>, CodecError>(None),
            0nat,
        ),
        decode_frame(
            frame(message.payload()).take(k) + (frame(message.payload()).skip(k) + rest),
            max_size,
        ) == (
            Ok::<Option<MessageView>, CodecError>(Some(message)),
            frame(message.payload()).len(),
        ),
{
    let whole = frame(message.payload());
    lemma_partial_frame_waits(message.payload(), k, max_size);
    lemma_message_roundtrip(message, rest, max_size);
    assert(whole.take(k) + (whole.skip(k) + rest) == whole + rest);
}

} // verus!
