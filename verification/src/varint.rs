//! Unsigned varints: the length prefix of a frame.
//!
//! A number is written in groups of seven bits, least significant group
//! first, one group per byte. The high bit of a byte says that another byte
//! follows. The two functions at the end of this file call the
//! `unsigned_varint` crate; their contracts are not proved.

use vstd::prelude::*;

verus! {

/// Why the start of a buffer is no varint.
#[derive(Clone, Copy, Debug, PartialEq, Eq, Structural)]
pub enum VarintError {
    /// Every byte so far announces another one.
    Insufficient,
    /// More bytes than a `usize` can take, each announcing another one.
    Overflow,
    /// More than one byte, the last of them zero: a shorter form exists.
    NotMinimal,
}

/// The most bytes that the varint of a `usize` takes: ten where a `usize`
/// has 64 bits, five where it has 32.
pub open spec fn max_len() -> nat {
    if usize::BITS == 64 {
        10
    } else {
        5
    }
}

/// How many bytes at the start of `bytes` have the high bit set.
pub open spec fn continuation_run(bytes: Seq<u8>) -> nat
    decreases bytes.len(),
{
    if bytes.len() > 0 && bytes[0] & 0x80 != 0 {
        1 + continuation_run(bytes.skip(1))
    } else {
        0
    }
}

/// The number that the low seven bits of each byte spell, least significant
/// group first.
pub open spec fn groups_value(bytes: Seq<u8>) -> nat
    decreases bytes.len(),
{
    if bytes.len() == 0 {
        0
    } else {
        (bytes[0] & 0x7f) as nat + 128 * groups_value(bytes.skip(1))
    }
}

/// The varint at the start of `bytes`: its value and how many bytes it
/// takes, or why there is none. Bits beyond the width of a `usize` are
/// dropped.
pub open spec fn decode(bytes: Seq<u8>) -> Result<(usize, nat), VarintError> {
    let run = continuation_run(bytes);
    if run >= max_len() {
        Err(VarintError::Overflow)
    } else if run >= bytes.len() {
        Err(VarintError::Insufficient)
    } else if run > 0 && bytes[run as int] == 0 {
        Err(VarintError::NotMinimal)
    } else {
        Ok(((groups_value(bytes.take(run as int + 1)) % (usize::MAX + 1) as nat) as usize, run + 1))
    }
}

/// The varint of `n`.
pub open spec fn encoding(n: nat) -> Seq<u8>
    decreases n,
{
    if n < 128 {
        seq![n as u8]
    } else {
        seq![(n % 128 + 128) as u8] + encoding(n / 128)
    }
}

/// 128 to the power of `k`.
pub open spec fn pow128(k: nat) -> nat
    decreases k,
{
    if k == 0 {
        1
    } else {
        128 * pow128((k - 1) as nat)
    }
}

/// The bytes of a varint: every byte but the last announces another one,
/// the last does not and is zero only where it stands alone, and the groups
/// spell the number.
pub proof fn lemma_encoding_shape(n: nat)
    ensures
        encoding(n).len() >= 1,
        forall|i: int| 0 <= i < encoding(n).len() - 1 ==> #[trigger] encoding(n)[i] & 0x80 != 0,
        encoding(n).last() & 0x80 == 0,
        n >= 1 ==> encoding(n).last() != 0,
        n >= 128 <==> encoding(n).len() > 1,
        groups_value(encoding(n)) == n,
    decreases n,
{
    let e = encoding(n);
    if n < 128 {
        let b = n as u8;
        assert(b < 128 ==> b & 0x80 == 0 && b & 0x7f == b) by (bit_vector);
        assert(e.skip(1) == Seq::<u8>::empty());
        assert(groups_value(e.skip(1)) == 0);
    } else {
        let b = (n % 128 + 128) as u8;
        let tail = encoding(n / 128);
        lemma_encoding_shape(n / 128);
        assert(b >= 128 ==> b & 0x80 != 0 && b & 0x7f == b - 128) by (bit_vector);
        assert(e.skip(1) == tail);
        assert(e.last() == tail.last());
        assert forall|i: int| 0 <= i < e.len() - 1 implies #[trigger] e[i] & 0x80 != 0 by {
            if i > 0 {
                assert(e[i] == tail[i - 1]);
            }
        }
    }
}

/// A number below 128 to the power of `k` takes at most `k` bytes.
pub proof fn lemma_encoding_len(n: nat, k: nat)
    requires
        k >= 1,
        n < pow128(k),
    ensures
        encoding(n).len() <= k,
    decreases k,
{
    if n >= 128 {
        reveal_with_fuel(pow128, 2);
        lemma_encoding_len(n / 128, (k - 1) as nat);
    }
}

/// The varint of a `usize` takes at most [`max_len`] bytes.
pub proof fn lemma_encoding_fits(n: usize)
    ensures
        1 <= encoding(n as nat).len() <= max_len(),
{
    lemma_encoding_shape(n as nat);
    if usize::BITS == 64 {
        assert(pow128(10) == 0x40_0000_0000_0000_0000) by {
            reveal_with_fuel(pow128, 11);
        }
        lemma_encoding_len(n as nat, 10);
    } else {
        assert(pow128(5) == 0x8_0000_0000) by {
            reveal_with_fuel(pow128, 6);
        }
        lemma_encoding_len(n as nat, 5);
    }
}

/// Where the first `k` bytes all announce another one and the next does
/// not, the run of announcing bytes is `k` long.
proof fn lemma_run(bytes: Seq<u8>, k: nat)
    requires
        k <= bytes.len(),
        forall|i: int| 0 <= i < k ==> #[trigger] bytes[i] & 0x80 != 0,
        k < bytes.len() ==> bytes[k as int] & 0x80 == 0,
    ensures
        continuation_run(bytes) == k,
    decreases k,
{
    if k > 0 {
        assert(bytes[0] & 0x80 != 0);
        let rest = bytes.skip(1);
        assert forall|i: int| 0 <= i < k - 1 implies #[trigger] rest[i] & 0x80 != 0 by {
            assert(rest[i] == bytes[i + 1]);
        }
        lemma_run(rest, (k - 1) as nat);
    }
}

/// Reading back the varint of a `usize` gives the number and the varint's
/// length, whatever follows it.
pub proof fn lemma_decode_encoding(n: usize, rest: Seq<u8>)
    ensures
        decode(encoding(n as nat) + rest) == Ok::<(usize, nat), VarintError>(
            (n, encoding(n as nat).len()),
        ),
{
    let e = encoding(n as nat);
    let bytes = e + rest;
    lemma_encoding_shape(n as nat);
    lemma_encoding_fits(n);
    let k = (e.len() - 1) as nat;
    assert forall|i: int| 0 <= i < k implies #[trigger] bytes[i] & 0x80 != 0 by {
        assert(bytes[i] == e[i]);
    }
    assert(bytes[k as int] == e.last());
    lemma_run(bytes, k);
    assert(bytes.take(k as int + 1) == e);
    vstd::arithmetic::div_mod::lemma_small_mod(n as nat, (usize::MAX + 1) as nat);
}

/// A varint cut short is no varint yet: more bytes are needed.
pub proof fn lemma_decode_cut(n: usize, k: int)
    requires
        0 <= k < encoding(n as nat).len(),
    ensures
        decode(encoding(n as nat).take(k)) == Err::<(usize, nat), VarintError>(
            VarintError::Insufficient,
        ),
{
    let e = encoding(n as nat);
    let bytes = e.take(k);
    lemma_encoding_shape(n as nat);
    lemma_encoding_fits(n);
    assert forall|i: int| 0 <= i < k implies #[trigger] bytes[i] & 0x80 != 0 by {
        assert(bytes[i] == e[i]);
    }
    lemma_run(bytes, k as nat);
}

/// `unsigned_varint::decode::usize`: reads the varint at the start of `buf`
/// and returns its value with the rest of `buf`. The contract claims that it
/// finds what [`decode`] describes, with each of the crate's errors under
/// its own name.
#[verifier::external_body]
pub(crate) fn decode_usize(buf: &[u8]) -> (result: Result<(usize, &[u8]), VarintError>)
    ensures
        match result {
            Ok((value, rest)) => match decode(buf@) {
                Ok((v, len)) => value == v && rest@ == buf@.skip(len as int),
                Err(_) => false,
            },
            Err(e) => decode(buf@) == Err::<(usize, nat), VarintError>(e),
        },
{
    match unsigned_varint::decode::usize(buf) {
        Ok((value, rest)) => Ok((value, rest)),
        Err(unsigned_varint::decode::Error::Insufficient) => Err(VarintError::Insufficient),
        Err(unsigned_varint::decode::Error::NotMinimal) => Err(VarintError::NotMinimal),
        Err(_) => Err(VarintError::Overflow),
    }
}

/// `unsigned_varint::encode::usize`, on a buffer from
/// `unsigned_varint::encode::usize_buffer`: the contract claims that the
/// bytes written are [`encoding`] of the number.
#[verifier::external_body]
pub(crate) fn encode_usize(number: usize) -> (out: Vec<u8>)
    ensures
        out@ == encoding(number as nat),
{
    let mut buf = unsigned_varint::encode::usize_buffer();
    unsigned_varint::encode::usize(number, &mut buf).to_vec()
}

} // verus!
