//! The wire format: a frame is its payload behind a four-byte big-endian
//! count of the payload's bytes. Nothing else is on the wire.

use vstd::arithmetic::div_mod::{
    lemma_div_denominator, lemma_fundamental_div_mod, lemma_fundamental_div_mod_converse,
};
use vstd::prelude::*;

verus! {

/// The value of four bytes read as a big-endian unsigned integer.
pub open spec fn be_u32(b: Seq<u8>) -> int
    recommends
        b.len() == 4,
{
    b[0] * 0x100_0000 + b[1] * 0x1_0000 + b[2] * 0x100 + b[3]
}

/// The four bytes that stand for `n`, most significant first.
pub open spec fn be_bytes(n: u32) -> Seq<u8> {
    seq![
        (n / 0x100_0000) as u8,
        (n / 0x1_0000 % 0x100) as u8,
        (n / 0x100 % 0x100) as u8,
        (n % 0x100) as u8,
    ]
}

/// The bytes on the wire for one payload of at most `u32::MAX` bytes.
pub open spec fn frame(payload: Seq<u8>) -> Seq<u8>
    recommends
        payload.len() <= u32::MAX,
{
    be_bytes(payload.len() as u32) + payload
}

/// Reading the four bytes of a number gives the number back.
pub proof fn lemma_be_bytes_read(n: u32)
    ensures
        be_bytes(n).len() == 4,
        be_u32(be_bytes(n)) == n,
{
    let v = n as int;
    lemma_fundamental_div_mod(v, 0x100);
    lemma_fundamental_div_mod(v / 0x100, 0x100);
    lemma_fundamental_div_mod(v / 0x1_0000, 0x100);
    lemma_div_denominator(v, 0x100, 0x100);
    lemma_div_denominator(v, 0x1_0000, 0x100);
    assert(v / 0x100 / 0x100 == v / 0x1_0000);
    assert(v / 0x1_0000 / 0x100 == v / 0x100_0000);
    assert(0 <= v / 0x100_0000 < 0x100);
    assert(v / 0x1_0000 % 0x100 == v / 0x1_0000 - 0x100 * (v / 0x100_0000));
}

/// The digits of a number written in base 256 are found again by division.
proof fn lemma_base_256_digits(b0: int, b1: int, b2: int, b3: int)
    requires
        0 <= b0 < 0x100,
        0 <= b1 < 0x100,
        0 <= b2 < 0x100,
        0 <= b3 < 0x100,
    ensures
        ({
            let v = b0 * 0x100_0000 + b1 * 0x1_0000 + b2 * 0x100 + b3;
            &&& 0 <= v <= 0xffff_ffff
            &&& v / 0x100_0000 == b0
            &&& v / 0x1_0000 % 0x100 == b1
            &&& v / 0x100 % 0x100 == b2
            &&& v % 0x100 == b3
        }),
{
    let v = b0 * 0x100_0000 + b1 * 0x1_0000 + b2 * 0x100 + b3;
    let top_two = b0 * 0x100 + b1;
    let top_three = b0 * 0x1_0000 + b1 * 0x100 + b2;
    lemma_fundamental_div_mod_converse(v, 0x100_0000, b0, b1 * 0x1_0000 + b2 * 0x100 + b3);
    lemma_fundamental_div_mod_converse(v, 0x1_0000, top_two, b2 * 0x100 + b3);
    lemma_fundamental_div_mod_converse(top_two, 0x100, b0, b1);
    lemma_fundamental_div_mod_converse(v, 0x100, top_three, b3);
    lemma_fundamental_div_mod_converse(top_three, 0x100, top_two, b2);
}

/// Four bytes are the bytes of the number they read as: no two prefixes stand
/// for one length.
pub proof fn lemma_be_u32_written(b: Seq<u8>)
    requires
        b.len() == 4,
    ensures
        0 <= be_u32(b) <= u32::MAX,
        be_bytes(be_u32(b) as u32) == b,
{
    lemma_base_256_digits(b[0] as int, b[1] as int, b[2] as int, b[3] as int);
    let n = be_u32(b) as u32;
    assert(be_bytes(n)[0] == b[0]);
    assert(be_bytes(n)[1] == b[1]);
    assert(be_bytes(n)[2] == b[2]);
    assert(be_bytes(n)[3] == b[3]);
    assert(be_bytes(n) =~= b);
}

/// A frame is four bytes longer than its payload, starts with the payload's
/// length and goes on with the payload.
pub proof fn lemma_frame_parts(payload: Seq<u8>)
    requires
        payload.len() <= u32::MAX,
    ensures
        frame(payload).len() == 4 + payload.len(),
        be_u32(frame(payload).subrange(0, 4)) == payload.len(),
        frame(payload).subrange(4, 4 + payload.len() as int) == payload,
{
    let header = be_bytes(payload.len() as u32);
    lemma_be_bytes_read(payload.len() as u32);
    assert(frame(payload).subrange(0, 4) =~= header);
    assert(frame(payload).subrange(4, 4 + payload.len() as int) =~= payload);
}

/// The prefix for a payload of `n` bytes.
pub fn encode_len(n: u32) -> (header: [u8; 4])
    ensures
        header@ == be_bytes(n),
{
    let header = [
        (n / 0x100_0000) as u8,
        (n / 0x1_0000 % 0x100) as u8,
        (n / 0x100 % 0x100) as u8,
        (n % 0x100) as u8,
    ];
    assert(header@ =~= be_bytes(n));
    header
}

} // verus!
