//! The stored record and its fixed four-byte layout.

use borsh::BorshDeserialize;
use borsh::BorshSerialize;
use vstd::prelude::*;

verus! {

/// Number of bytes that the encoded record takes.
pub const RECORD_LEN: usize = 4;

/// Number of values that a `u32` counter can hold.
pub const COUNTER_MODULUS: u64 = 0x1_0000_0000;

/// The number that four bytes stand for, least significant byte first.
pub open spec fn le_value(b: Seq<u8>) -> int {
    b[0] as int + 256 * (b[1] as int + 256 * (b[2] as int + 256 * (b[3] as int)))
}

/// The four bytes of `v`, least significant byte first.
pub open spec fn le_bytes(v: u32) -> Seq<u8> {
    let w1 = v as int / 256;
    let w2 = w1 / 256;
    let w3 = w2 / 256;
    seq![(v as int % 256) as u8, (w1 % 256) as u8, (w2 % 256) as u8, w3 as u8]
}

/// Relies on borsh's `BorshDeserialize::try_from_slice` for `u32`: it reads
/// the bytes as a little-endian `u32` and fails unless there are exactly four.
#[verifier::external_body]
fn borsh_read_u32(data: &[u8]) -> (r: Result<u32, String>)
    ensures
        r is Ok <==> data@.len() == 4,
        r is Ok ==> r->Ok_0 as int == le_value(data@),
{
    match <u32 as BorshDeserialize>::try_from_slice(data) {
        Ok(v) => Ok(v),
        Err(e) => Err(e.to_string()),
    }
}

/// Relies on borsh's `BorshSerialize::serialize` for `u32`, writing into a
/// byte slice: the four little-endian bytes go to its start, the rest is left
/// as it was, and it fails when fewer than four bytes fit.
#[verifier::external_body]
fn borsh_write_u32(v: u32, dst: &mut Vec<u8>) -> (r: Result<(), String>)
    ensures
        final(dst)@.len() == old(dst)@.len(),
        r is Ok <==> old(dst)@.len() >= 4,
        r is Ok ==> final(dst)@ == le_bytes(v) + old(dst)@.subrange(4, old(dst)@.len() as int),
{
    let mut w: &mut [u8] = dst.as_mut_slice();
    match v.serialize(&mut w) {
        Ok(()) => Ok(()),
        Err(e) => Err(e.to_string()),
    }
}

/// Decoding the encoding of a counter gives the counter back.
pub proof fn lemma_round_trip(v: u32)
    ensures
        le_bytes(v).len() == RECORD_LEN,
        le_value(le_bytes(v)) == v as int,
{
    let x = v as int;
    let w1 = x / 256;
    let w2 = w1 / 256;
    let w3 = w2 / 256;
    assert(x == 256 * w1 + x % 256);
    assert(w1 == 256 * w2 + w1 % 256);
    assert(w2 == 256 * w3 + w2 % 256);
    assert(w3 < 256);
}

/// The state that an account holds: a single counter.
#[derive(Debug)]
pub struct ThumbState {
    pub thumbs: u32,
}

impl ThumbState {
    /// Reads a record from exactly `RECORD_LEN` bytes; any other length is an
    /// error that carries the decoder's message.
    pub fn try_from_slice(data: &[u8]) -> (r: Result<ThumbState, String>)
        ensures
            r is Ok <==> data@.len() == RECORD_LEN,
            r is Ok ==> r->Ok_0.thumbs as int == le_value(data@),
    {
        match borsh_read_u32(data) {
            Ok(v) => Ok(ThumbState { thumbs: v }),
            Err(e) => Err(e),
        }
    }

    /// Writes the record over the first `RECORD_LEN` bytes of `dst`, which
    /// keeps its length; fails when `dst` is shorter than that.
    pub fn serialize(&self, dst: &mut Vec<u8>) -> (r: Result<(), String>)
        ensures
            final(dst)@.len() == old(dst)@.len(),
            r is Ok <==> old(dst)@.len() >= RECORD_LEN,
            r is Ok ==> final(dst)@ == le_bytes(self.thumbs) + old(dst)@.subrange(
                RECORD_LEN as int,
                old(dst)@.len() as int,
            ),
    {
        borsh_write_u32(self.thumbs, dst)
    }
}

} // verus!
