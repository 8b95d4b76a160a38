//! Topics, messages, and the payload format of a message.

use crate::buffer::{bytes_as_slice, bytes_contents, bytes_from_vec};
use bytes::Bytes;
use std::cmp::Ordering;
use vstd::prelude::*;
use vstd::std_specs::cmp::{PartialEqSpecImpl, PartialOrdSpecImpl};

verus! {

/// A topic name: at most [`Topic::MAX_TOPIC_LENGTH`] bytes, held in a fixed buffer
/// together with the number of bytes in use.
///
/// The buffer beyond the bytes in use is always zero, so that two topics are
/// equal, and ordered, by their names alone.
///
/// A name of 64 bytes can be held but not sent: the header of a message has
/// six bits for the topic's length, so 63 bytes is the most that the wire
/// carries (see [`header_byte`]).
#[derive(Clone, Copy, Debug, Eq, Hash, Ord)]
pub struct Topic {
    len: u8,
    bytes: [u8; 64],
}

impl View for Topic {
    type V = Seq<u8>;

    /// The topic's name.
    closed spec fn view(&self) -> Seq<u8> {
        self.bytes@.take(self.len as int)
    }
}

impl Topic {
    /// The capacity of a topic's storage, in bytes.
    pub const MAX_TOPIC_LENGTH: usize = 64;

    /// The name fits the buffer, and the rest of the buffer is zero.
    #[verifier::type_invariant]
    pub closed spec fn wf(&self) -> bool {
        &&& self.len <= 64
        &&& forall|i: int| self.len <= i < 64 ==> self.bytes@[i] == 0
    }

    /// A topic with the given name.
    pub fn new(topic: &[u8]) -> (out: Self)
        requires
            topic@.len() <= Topic::MAX_TOPIC_LENGTH,
        ensures
            out@ == topic@,
    {
        let mut bytes = [0u8; 64];
        let n = topic.len();
        let mut i: usize = 0;
        while i < n
            invariant
                n == topic@.len(),
                n <= 64,
                i <= n,
                forall|j: int| 0 <= j < i ==> bytes@[j] == topic@[j],
                forall|j: int| i <= j < 64 ==> bytes@[j] == 0,
            decreases n - i,
        {
            bytes[i] = topic[i];
            i += 1;
        }
        let out = Topic { len: n as u8, bytes };
        assert(out@ =~= topic@);
        out
    }

    /// The sign of [`compare_names`] on the two names: -1, 0 or 1.
    fn compare(&self, other: &Self) -> (sign: i8)
        ensures
            -1 <= sign <= 1,
            sign < 0 <==> compare_names(self@, other@) < 0,
            sign == 0 <==> compare_names(self@, other@) == 0,
    {
        proof {
            use_type_invariant(self);
            use_type_invariant(other);
        }
        if self.len < other.len {
            return -1;
        }
        if self.len > other.len {
            return 1;
        }
        let n = self.len as usize;
        let mut i: usize = 0;
        while i < n
            invariant
                n == self.len,
                n == other.len,
                n <= 64,
                i <= n,
                forall|j: int| 0 <= j < i ==> self@[j] == other@[j],
            decreases n - i,
        {
            if self.bytes[i] != other.bytes[i] {
                proof {
                    lemma_compare_from(self@, other@, i as int);
                }
                return if self.bytes[i] < other.bytes[i] {
                    -1
                } else {
                    1
                };
            }
            i += 1;
        }
        proof {
            lemma_compare_from(self@, other@, n as int);
        }
        0
    }

    /// The number of bytes in the name.
    pub fn len(&self) -> (n: usize)
        ensures
            n == self@.len(),
            n <= Topic::MAX_TOPIC_LENGTH,
    {
        proof {
            use_type_invariant(self);
        }
        self.len as usize
    }

    /// The name as a slice.
    pub fn as_ref(&self) -> (name: &[u8])
        ensures
            name@ == self@,
    {
        proof {
            use_type_invariant(self);
        }
        vstd::slice::slice_subrange(self.bytes.as_slice(), 0, self.len as usize)
    }
}

impl std::ops::Deref for Topic {
    type Target = [u8];

    fn deref(&self) -> (name: &[u8])
        ensures
            name@ == self@,
    {
        self.as_ref()
    }
}

impl AsRef<[u8]> for Topic {
    fn as_ref(&self) -> (name: &[u8])
        ensures
            name@ == self@,
    {
        Topic::as_ref(self)
    }
}

/// How two names compare: below zero where `a` comes first, zero where they
/// are equal, above zero where `b` comes first. The shorter name comes
/// first; of two names of one length, the one with the smaller byte at the
/// first place where they differ.
pub open spec fn compare_names(a: Seq<u8>, b: Seq<u8>) -> int
    decreases a.len(),
{
    if a.len() != b.len() {
        a.len() - b.len()
    } else if a.len() == 0 {
        0
    } else if a[0] != b[0] {
        a[0] - b[0]
    } else {
        compare_names(a.skip(1), b.skip(1))
    }
}

/// Names that agree on their first `k` bytes compare as what follows does.
proof fn lemma_compare_from(a: Seq<u8>, b: Seq<u8>, k: int)
    requires
        a.len() == b.len(),
        0 <= k <= a.len(),
        forall|j: int| 0 <= j < k ==> a[j] == b[j],
    ensures
        compare_names(a, b) == compare_names(a.skip(k), b.skip(k)),
    decreases k,
{
    if k > 0 {
        lemma_compare_from(a.skip(1), b.skip(1), k - 1);
        assert(a.skip(1).skip(k - 1) == a.skip(k));
        assert(b.skip(1).skip(k - 1) == b.skip(k));
    } else {
        assert(a.skip(0) == a);
        assert(b.skip(0) == b);
    }
}

impl PartialOrd for Topic {
    /// Orders by the names, and by nothing of the buffer beyond them.
    fn partial_cmp(&self, other: &Self) -> (order: Option<Ordering>) {
        let sign = self.compare(other);
        if sign < 0 {
            Some(Ordering::Less)
        } else if sign == 0 {
            Some(Ordering::Equal)
        } else {
            Some(Ordering::Greater)
        }
    }
}

impl PartialOrdSpecImpl for Topic {
    open spec fn obeys_partial_cmp_spec() -> bool {
        true
    }

    open spec fn partial_cmp_spec(&self, other: &Self) -> Option<Ordering> {
        let sign = compare_names(self@, other@);
        if sign < 0 {
            Some(Ordering::Less)
        } else if sign == 0 {
            Some(Ordering::Equal)
        } else {
            Some(Ordering::Greater)
        }
    }
}

impl PartialEq for Topic {
    /// Compares the names, and nothing of the buffer beyond them.
    fn eq(&self, other: &Self) -> (equal: bool) {
        proof {
            use_type_invariant(self);
            use_type_invariant(other);
        }
        if self.len != other.len {
            assert(self@.len() != other@.len());
            return false;
        }
        let n = self.len as usize;
        let mut i: usize = 0;
        while i < n
            invariant
                n == self.len,
                n == other.len,
                n <= 64,
                i <= n,
                forall|j: int| 0 <= j < i ==> self.bytes@[j] == other.bytes@[j],
            decreases n - i,
        {
            if self.bytes[i] != other.bytes[i] {
                assert(self@[i as int] != other@[i as int]);
                return false;
            }
            i += 1;
        }
        assert(self@ =~= other@);
        true
    }
}

impl PartialEqSpecImpl for Topic {
    open spec fn obeys_eq_spec() -> bool {
        true
    }

    open spec fn eq_spec(&self, other: &Self) -> bool {
        self@ == other@
    }
}

/// Topics are told apart by their names alone: what lies in the buffer
/// beyond the name plays no part.
pub proof fn lemma_topic_by_name(a: Topic, b: Topic)
    requires
        a.wf(),
        b.wf(),
        a@ == b@,
    ensures
        a == b,
{
    assert(a.len == a@.len() && b.len == b@.len());
    assert forall|i: int| 0 <= i < 64 implies a.bytes@[i] == b.bytes@[i] by {
        if i < a.len {
            assert(a.bytes@[i] == a@[i]);
            assert(b.bytes@[i] == b@[i]);
        }
    }
    assert(a.bytes =~= b.bytes);
}

/// Why a payload is not a message.
#[derive(Clone, Copy, Debug, PartialEq, Eq, Structural)]
pub enum DecodeError {
    /// The payload has no bytes at all.
    Empty,
    /// The header announces a topic longer than the bytes that follow it.
    TopicOutOfRange,
    /// The header carries the reserved type code.
    InvalidHeader,
}

impl DecodeError {
    /// A short description of the error.
    pub fn description(&self) -> (text: &'static str)
        ensures
            text@ == match *self {
                DecodeError::Empty => "empty message"@,
                DecodeError::TopicOutOfRange => "topic length out of range"@,
                DecodeError::InvalidHeader => "invalid header"@,
            },
    {
        match self {
            DecodeError::Empty => "empty message",
            DecodeError::TopicOutOfRange => "topic length out of range",
            DecodeError::InvalidHeader => "invalid header",
        }
    }
}

/// What a peer can say: join a topic, leave it, or publish to it.
///
/// Two messages are equal where they are of one kind and have equal topics
/// and, for broadcasts, equal published bytes.
#[derive(Clone, Debug, Eq)]
pub enum Message {
    Subscribe(Topic),
    Broadcast(Topic, Bytes),
    Unsubscribe(Topic),
}

impl PartialEq for Message {
    fn eq(&self, other: &Self) -> (equal: bool) {
        match (self, other) {
            (Message::Subscribe(a), Message::Subscribe(b)) => *a == *b,
            (Message::Unsubscribe(a), Message::Unsubscribe(b)) => *a == *b,
            (Message::Broadcast(a, x), Message::Broadcast(b, y)) => *a == *b && same_bytes(
                bytes_as_slice(x),
                bytes_as_slice(y),
            ),
            _ => false,
        }
    }
}

impl PartialEqSpecImpl for Message {
    open spec fn obeys_eq_spec() -> bool {
        true
    }

    open spec fn eq_spec(&self, other: &Self) -> bool {
        self@ == other@
    }
}

/// A message as plain values: the topic's name and, for a broadcast, the
/// published bytes.
pub enum MessageView {
    Subscribe(Seq<u8>),
    Broadcast(Seq<u8>, Seq<u8>),
    Unsubscribe(Seq<u8>),
}

/// Type code of a subscription, in the two low bits of the header.
pub const CODE_SUBSCRIBE: u8 = 0;

/// Type code of a broadcast.
pub const CODE_BROADCAST: u8 = 1;

/// Type code of an unsubscription.
pub const CODE_UNSUBSCRIBE: u8 = 2;

/// The header byte: the topic's length in the six high bits, the type code
/// in the two low bits. A length of 64 does not fit: its bits are shifted out
/// and the header reads as length zero.
pub open spec fn header_byte(topic_len: u8, code: u8) -> u8 {
    (topic_len << 2) | code
}

impl MessageView {
    /// The topic's name.
    pub open spec fn topic(self) -> Seq<u8> {
        match self {
            MessageView::Subscribe(topic) => topic,
            MessageView::Broadcast(topic, _) => topic,
            MessageView::Unsubscribe(topic) => topic,
        }
    }

    /// The published bytes of a broadcast; empty for the other messages.
    pub open spec fn data(self) -> Seq<u8> {
        match self {
            MessageView::Broadcast(_, data) => data,
            _ => Seq::empty(),
        }
    }

    /// The type code that the header carries for this message.
    pub open spec fn type_code(self) -> u8 {
        match self {
            MessageView::Subscribe(_) => CODE_SUBSCRIBE,
            MessageView::Broadcast(_, _) => CODE_BROADCAST,
            MessageView::Unsubscribe(_) => CODE_UNSUBSCRIBE,
        }
    }

    /// The message on the wire, without the length prefix: the header byte,
    /// the topic's name, and for a broadcast the published bytes.
    pub open spec fn payload(self) -> Seq<u8> {
        seq![header_byte(self.topic().len() as u8, self.type_code())] + self.topic() + self.data()
    }

    /// The topic's length fits the six bits that the header has for it.
    pub open spec fn fits_header(self) -> bool {
        self.topic().len() <= 63
    }
}

/// The message that a payload spells, or why it spells none.
pub open spec fn parse_payload(bytes: Seq<u8>) -> Result<MessageView, DecodeError> {
    if bytes.len() == 0 {
        Err(DecodeError::Empty)
    } else {
        let topic_len = (bytes[0] >> 2) as int;
        let topic = bytes.subrange(1, 1 + topic_len);
        let code = bytes[0] & 3;
        if bytes.len() < 1 + topic_len {
            Err(DecodeError::TopicOutOfRange)
        } else if code == CODE_SUBSCRIBE {
            Ok(MessageView::Subscribe(topic))
        } else if code == CODE_UNSUBSCRIBE {
            Ok(MessageView::Unsubscribe(topic))
        } else if code == CODE_BROADCAST {
            Ok(MessageView::Broadcast(topic, bytes.skip(1 + topic_len)))
        } else {
            Err(DecodeError::InvalidHeader)
        }
    }
}

impl View for Message {
    type V = MessageView;

    open spec fn view(&self) -> MessageView {
        match *self {
            Message::Subscribe(topic) => MessageView::Subscribe(topic@),
            Message::Broadcast(topic, data) => MessageView::Broadcast(topic@, bytes_contents(data)),
            Message::Unsubscribe(topic) => MessageView::Unsubscribe(topic@),
        }
    }
}

/// Whether `result` is the outcome that [`parse_payload`] gives for `bytes`.
pub open spec fn decodes_to(bytes: Seq<u8>, result: Result<Message, DecodeError>) -> bool {
    match result {
        Ok(message) => parse_payload(bytes) == Ok::<MessageView, DecodeError>(message@),
        Err(e) => parse_payload(bytes) == Err::<MessageView, DecodeError>(e),
    }
}

impl Message {
    /// Reads a message from its payload.
    pub fn from_bytes(bytes: &[u8]) -> (result: Result<Message, DecodeError>)
        ensures
            decodes_to(bytes@, result),
            bytes@.len() == 0 ==> result == Err::<Message, DecodeError>(DecodeError::Empty),
            bytes@.len() > 0 && bytes@[0] & 3 == 3 ==> result is Err,
    {
        if bytes.len() == 0 {
            return Err(DecodeError::Empty);
        }
        let header = bytes[0];
        assert(header >> 2 <= 63) by (bit_vector);
        let topic_len = (header >> 2) as usize;
        if bytes.len() < topic_len + 1 {
            return Err(DecodeError::TopicOutOfRange);
        }
        let topic = Topic::new(vstd::slice::slice_subrange(bytes, 1, topic_len + 1));
        let code = header & 3;
        if code == CODE_SUBSCRIBE {
            Ok(Message::Subscribe(topic))
        } else if code == CODE_UNSUBSCRIBE {
            Ok(Message::Unsubscribe(topic))
        } else if code == CODE_BROADCAST {
            let rest = vstd::slice::slice_subrange(bytes, topic_len + 1, bytes.len());
            let data = vstd::slice::slice_to_vec(rest);
            Ok(Message::Broadcast(topic, bytes_from_vec(data)))
        } else {
            assert(header & 3 <= 3) by (bit_vector);
            Err(DecodeError::InvalidHeader)
        }
    }

    /// Writes the message as a payload.
    pub fn to_bytes(&self) -> (out: Vec<u8>)
        ensures
            out@ == self@.payload(),
    {
        let mut buf: Vec<u8> = Vec::new();
        match self {
            Message::Subscribe(topic) => {
                buf.push(make_header(topic.len(), CODE_SUBSCRIBE));
                append(&mut buf, topic.as_ref());
            },
            Message::Unsubscribe(topic) => {
                buf.push(make_header(topic.len(), CODE_UNSUBSCRIBE));
                append(&mut buf, topic.as_ref());
            },
            Message::Broadcast(topic, data) => {
                buf.push(make_header(topic.len(), CODE_BROADCAST));
                append(&mut buf, topic.as_ref());
                append(&mut buf, bytes_as_slice(data));
            },
        }
        buf
    }

    /// A second handle on the same message: the published bytes are shared,
    /// not copied.
    pub(crate) fn duplicate(&self) -> (out: Message)
        ensures
            out@ == self@,
    {
        match self {
            Message::Subscribe(topic) => Message::Subscribe(*topic),
            Message::Unsubscribe(topic) => Message::Unsubscribe(*topic),
            Message::Broadcast(topic, data) => Message::Broadcast(*topic, data.clone()),
        }
    }

    /// The length of the payload, in bytes.
    pub fn len(&self) -> (n: usize)
        requires
            self@.payload().len() <= usize::MAX,
        ensures
            n == self@.payload().len(),
    {
        match self {
            Message::Subscribe(topic) => 1 + topic.len(),
            Message::Unsubscribe(topic) => 1 + topic.len(),
            Message::Broadcast(topic, data) => 1 + topic.len() + bytes_as_slice(data).len(),
        }
    }
}

/// Whether two slices hold the same bytes.
fn same_bytes(a: &[u8], b: &[u8]) -> (same: bool)
    ensures
        same == (a@ == b@),
{
    if a.len() != b.len() {
        return false;
    }
    let n = a.len();
    let mut i: usize = 0;
    while i < n
        invariant
            n == a@.len(),
            n == b@.len(),
            i <= n,
            forall|j: int| 0 <= j < i ==> a@[j] == b@[j],
        decreases n - i,
    {
        if a[i] != b[i] {
            return false;
        }
        i += 1;
    }
    assert(a@ =~= b@);
    true
}

/// The header byte for a topic of `topic_len` bytes and the given type code.
fn make_header(topic_len: usize, code: u8) -> (header: u8)
    requires
        topic_len <= Topic::MAX_TOPIC_LENGTH,
    ensures
        header == header_byte(topic_len as u8, code),
{
    ((topic_len as u8) << 2) | code
}

/// Appends the bytes of `tail` to `buf`.
fn append(buf: &mut Vec<u8>, tail: &[u8])
    ensures
        final(buf)@ == old(buf)@ + tail@,
{
    let ghost before = buf@;
    let n = tail.len();
    let mut i: usize = 0;
    while i < n
        invariant
            n == tail@.len(),
            i <= n,
            buf@ == before + tail@.take(i as int),
        decreases n - i,
    {
        buf.push(tail[i]);
        i += 1;
        assert(tail@.take(i as int) == tail@.take(i - 1).push(tail@[i - 1]));
    }
    assert(tail@.take(n as int) == tail@);
}

/// Reading back what was written gives the message again, as long as the
/// topic's length fits the header.
pub proof fn lemma_payload_roundtrip(message: MessageView)
    requires
        message.fits_header(),
    ensures
        parse_payload(message.payload()) == Ok::<MessageView, DecodeError>(message),
{
    let len = message.topic().len() as u8;
    let code = message.type_code();
    let header = header_byte(len, code);
    let bytes = message.payload();
    assert(bytes[0] == header);
    assert(len <= 63 && code <= 2 ==> ((len << 2) | code) >> 2 == len && ((len << 2) | code) & 3
        == code) by (bit_vector);
    assert(bytes.subrange(1, 1 + len as int) == message.topic());
    assert(bytes.skip(1 + len as int) == message.data());
}

} // verus!
