//! Deterministic, self-describing record codec.
//!
//! Values are encoded as fixed-width big-endian integers, raw 32-byte
//! identifiers, length-prefixed byte strings, one-byte option markers and
//! one-byte variant tags. The encoding of a record is a pure function of the
//! record, and decoding is its exact inverse; a decoder rejects an unknown
//! variant tag or option marker instead of guessing.
//!
//! Each shape has a spec encoder (`senc_*`) over views, a spec decoder
//! (`sdec_*`) over byte sequences with a position, and executable mirrors
//! proved against them. The `lemma_dec_enc_*` family proves the round trip:
//! decoding at the start of an encoding yields the encoded value exactly.

use vstd::prelude::*;

use crate::types::{Bytes32, CatLineageProof, CatLineageProofV, Coin, CoinKind, CoinKindV, CoinRecord, CoinRecordV, CoinSpendRecord, CoinSpendRecordV, CoinV, BlockRecord, BlockRecordV, P2Puzzle, P2PuzzleV, SingletonLineageProof, SingletonLineageProofV, TransactionInfo, TransactionInfoV, vopt_b32, vopt_bytes, vopt_clp, vopt_p2, vopt_ti};

verus! {

// ---------------------------------------------------------------------------
// Spec encoders
// ---------------------------------------------------------------------------

pub open spec fn senc_u8(x: u8) -> Seq<u8> {
    seq![x]
}

pub open spec fn senc_u16(x: u16) -> Seq<u8> {
    seq![(x >> 8) as u8, x as u8]
}

pub open spec fn senc_u32(x: u32) -> Seq<u8> {
    seq![(x >> 24) as u8, (x >> 16) as u8, (x >> 8) as u8, x as u8]
}

pub open spec fn senc_u64(x: u64) -> Seq<u8> {
    seq![
        (x >> 56) as u8,
        (x >> 48) as u8,
        (x >> 40) as u8,
        (x >> 32) as u8,
        (x >> 24) as u8,
        (x >> 16) as u8,
        (x >> 8) as u8,
        x as u8,
    ]
}

pub open spec fn senc_u128(x: u128) -> Seq<u8> {
    senc_u64((x >> 64) as u64) + senc_u64(x as u64)
}

pub open spec fn senc_b32(b: Seq<u8>) -> Seq<u8> {
    b
}

pub open spec fn senc_varbytes(b: Seq<u8>) -> Seq<u8> {
    senc_u32(b.len() as u32) + b
}

pub open spec fn senc_bool(b: bool) -> Seq<u8> {
    seq![if b { 1u8 } else { 0u8 }]
}

// ---------------------------------------------------------------------------
// Spec decoders: `Some((value, next_position))` or `None` for a reject.
// ---------------------------------------------------------------------------

#[verifier::opaque]
pub open spec fn sdec_u8(s: Seq<u8>, i: int) -> Option<(u8, int)> {
    if 0 <= i && i + 1 <= s.len() {
        Some((s[i], i + 1))
    } else {
        None
    }
}

#[verifier::opaque]
pub open spec fn sdec_u16(s: Seq<u8>, i: int) -> Option<(u16, int)> {
    if 0 <= i && i + 2 <= s.len() {
        Some((((s[i] as u16) << 8) | (s[i + 1] as u16), i + 2))
    } else {
        None
    }
}

#[verifier::opaque]
pub open spec fn sdec_u32(s: Seq<u8>, i: int) -> Option<(u32, int)> {
    if 0 <= i && i + 4 <= s.len() {
        Some(
            (
                ((s[i] as u32) << 24) | ((s[i + 1] as u32) << 16) | ((s[i + 2] as u32) << 8) | (s[i
                    + 3] as u32),
                i + 4,
            ),
        )
    } else {
        None
    }
}

#[verifier::opaque]
pub open spec fn sdec_u64(s: Seq<u8>, i: int) -> Option<(u64, int)> {
    if 0 <= i && i + 8 <= s.len() {
        Some(
            (
                ((s[i] as u64) << 56) | ((s[i + 1] as u64) << 48) | ((s[i + 2] as u64) << 40) | ((
                s[i + 3] as u64) << 32) | ((s[i + 4] as u64) << 24) | ((s[i + 5] as u64) << 16) | ((
                s[i + 6] as u64) << 8) | (s[i + 7] as u64),
                i + 8,
            ),
        )
    } else {
        None
    }
}

#[verifier::opaque]
pub open spec fn sdec_u128(s: Seq<u8>, i: int) -> Option<(u128, int)> {
    match sdec_u64(s, i) {
        Some((hi, j)) => match sdec_u64(s, j) {
            Some((lo, k)) => Some((((hi as u128) << 64) | (lo as u128), k)),
            None => None,
        },
        None => None,
    }
}

#[verifier::opaque]
pub open spec fn sdec_b32(s: Seq<u8>, i: int) -> Option<(Seq<u8>, int)> {
    if 0 <= i && i + 32 <= s.len() {
        Some((s.subrange(i, i + 32), i + 32))
    } else {
        None
    }
}

#[verifier::opaque]
pub open spec fn sdec_varbytes(s: Seq<u8>, i: int) -> Option<(Seq<u8>, int)> {
    match sdec_u32(s, i) {
        Some((n, j)) => {
            if j + n <= s.len() {
                Some((s.subrange(j, j + n), j + n))
            } else {
                None
            }
        },
        None => None,
    }
}

#[verifier::opaque]
pub open spec fn sdec_bool(s: Seq<u8>, i: int) -> Option<(bool, int)> {
    match sdec_u8(s, i) {
        Some((t, j)) => {
            if t == 0 {
                Some((false, j))
            } else if t == 1 {
                Some((true, j))
            } else {
                None
            }
        },
        None => None,
    }
}

// ---------------------------------------------------------------------------
// Round-trip lemmas for the primitives.
// ---------------------------------------------------------------------------

proof fn lemma_u16_recompose(x: u16)
    ensures
        (((((x >> 8) as u8) as u16) << 8) | ((x as u8) as u16)) == x,
{
    assert((((((x >> 8) as u8) as u16) << 8) | ((x as u8) as u16)) == x) by (bit_vector);
}

proof fn lemma_u32_recompose(x: u32)
    ensures
        ((((x >> 24) as u8 as u32) << 24) | (((x >> 16) as u8 as u32) << 16) | (((x
            >> 8) as u8 as u32) << 8) | (x as u8 as u32)) == x,
{
    assert(((((x >> 24) as u8 as u32) << 24) | (((x >> 16) as u8 as u32) << 16) | (((x
        >> 8) as u8 as u32) << 8) | (x as u8 as u32)) == x) by (bit_vector);
}

proof fn lemma_u64_recompose(x: u64)
    ensures
        ((((x >> 56) as u8 as u64) << 56) | (((x >> 48) as u8 as u64) << 48) | (((x
            >> 40) as u8 as u64) << 40) | (((x >> 32) as u8 as u64) << 32) | (((x
            >> 24) as u8 as u64) << 24) | (((x >> 16) as u8 as u64) << 16) | (((x
            >> 8) as u8 as u64) << 8) | (x as u8 as u64)) == x,
{
    assert(((((x >> 56) as u8 as u64) << 56) | (((x >> 48) as u8 as u64) << 48) | (((x
        >> 40) as u8 as u64) << 40) | (((x >> 32) as u8 as u64) << 32) | (((x
        >> 24) as u8 as u64) << 24) | (((x >> 16) as u8 as u64) << 16) | (((x >> 8) as u8 as u64)
        << 8) | (x as u8 as u64)) == x) by (bit_vector);
}

proof fn lemma_u128_recompose(x: u128)
    ensures
        ((((x >> 64) as u64) as u128) << 64) | ((x as u64) as u128) == x,
{
    assert(((((x >> 64) as u64) as u128) << 64) | ((x as u64) as u128) == x) by (bit_vector);
}

pub proof fn lemma_dec_enc_u8(x: u8, pre: Seq<u8>, post: Seq<u8>)
    ensures
        sdec_u8(pre + senc_u8(x) + post, pre.len() as int) == Some((x, pre.len() as int + 1)),
{
    reveal(sdec_u8);
    let s = pre + senc_u8(x) + post;
    assert(s[pre.len() as int] == x);
}

pub proof fn lemma_dec_enc_u16(x: u16, pre: Seq<u8>, post: Seq<u8>)
    ensures
        sdec_u16(pre + senc_u16(x) + post, pre.len() as int) == Some((x, pre.len() as int + 2)),
{
    reveal(sdec_u16);
    let s = pre + senc_u16(x) + post;
    let i = pre.len() as int;
    assert(s[i] == (x >> 8) as u8);
    assert(s[i + 1] == x as u8);
    lemma_u16_recompose(x);
}

pub proof fn lemma_dec_enc_u32(x: u32, pre: Seq<u8>, post: Seq<u8>)
    ensures
        sdec_u32(pre + senc_u32(x) + post, pre.len() as int) == Some((x, pre.len() as int + 4)),
{
    reveal(sdec_u32);
    let s = pre + senc_u32(x) + post;
    let i = pre.len() as int;
    assert(s[i] == (x >> 24) as u8);
    assert(s[i + 1] == (x >> 16) as u8);
    assert(s[i + 2] == (x >> 8) as u8);
    assert(s[i + 3] == x as u8);
    lemma_u32_recompose(x);
}

pub proof fn lemma_dec_enc_u64(x: u64, pre: Seq<u8>, post: Seq<u8>)
    ensures
        sdec_u64(pre + senc_u64(x) + post, pre.len() as int) == Some((x, pre.len() as int + 8)),
{
    reveal(sdec_u64);
    let s = pre + senc_u64(x) + post;
    let i = pre.len() as int;
    assert(s[i] == (x >> 56) as u8);
    assert(s[i + 1] == (x >> 48) as u8);
    assert(s[i + 2] == (x >> 40) as u8);
    assert(s[i + 3] == (x >> 32) as u8);
    assert(s[i + 4] == (x >> 24) as u8);
    assert(s[i + 5] == (x >> 16) as u8);
    assert(s[i + 6] == (x >> 8) as u8);
    assert(s[i + 7] == x as u8);
    lemma_u64_recompose(x);
}

pub proof fn lemma_dec_enc_u128(x: u128, pre: Seq<u8>, post: Seq<u8>)
    ensures
        sdec_u128(pre + senc_u128(x) + post, pre.len() as int) == Some((x, pre.len() as int + 16)),
{
    reveal(sdec_u128);
    let hi = (x >> 64) as u64;
    let lo = x as u64;
    let s = pre + senc_u128(x) + post;
    assert(pre + senc_u128(x) + post =~= pre + senc_u64(hi) + (senc_u64(lo) + post));
    lemma_dec_enc_u64(hi, pre, senc_u64(lo) + post);
    assert(pre + senc_u64(hi) + (senc_u64(lo) + post) =~= (pre + senc_u64(hi)) + senc_u64(lo)
        + post);
    lemma_dec_enc_u64(lo, pre + senc_u64(hi), post);
    lemma_u128_recompose(x);
}

pub proof fn lemma_dec_enc_b32(b: Seq<u8>, pre: Seq<u8>, post: Seq<u8>)
    requires
        b.len() == 32,
    ensures
        sdec_b32(pre + senc_b32(b) + post, pre.len() as int) == Some((b, pre.len() as int + 32)),
{
    reveal(sdec_b32);
    let s = pre + senc_b32(b) + post;
    let i = pre.len() as int;
    assert(s.subrange(i, i + 32) =~= b);
}

pub proof fn lemma_dec_enc_varbytes(b: Seq<u8>, pre: Seq<u8>, post: Seq<u8>)
    requires
        b.len() < 0x1_0000_0000,
    ensures
        sdec_varbytes(pre + senc_varbytes(b) + post, pre.len() as int) == Some(
            (b, pre.len() as int + 4 + b.len()),
        ),
{
    reveal(sdec_varbytes);
    let n = b.len() as u32;
    let s = pre + senc_varbytes(b) + post;
    assert(pre + senc_varbytes(b) + post =~= pre + senc_u32(n) + (b + post));
    lemma_dec_enc_u32(n, pre, b + post);
    let j = pre.len() + 4;
    assert(s.subrange(j as int, j + n as int) =~= b);
}

pub proof fn lemma_dec_enc_bool(b: bool, pre: Seq<u8>, post: Seq<u8>)
    ensures
        sdec_bool(pre + senc_bool(b) + post, pre.len() as int) == Some((b, pre.len() as int + 1)),
{
    reveal(sdec_bool);
    reveal(sdec_u8);
    let s = pre + senc_bool(b) + post;
    assert(s[pre.len() as int] == if b {
        1u8
    } else {
        0u8
    });
}


/// A four-byte sequence is the encoding of the value it decodes to.
pub proof fn lemma_enc_dec_u32(s: Seq<u8>, h: u32)
    requires
        s.len() == 4,
        sdec_u32(s, 0) == Some((h, 4int)),
    ensures
        senc_u32(h) == s,
{
    reveal(sdec_u32);
    let b0 = s[0];
    let b1 = s[1];
    let b2 = s[2];
    let b3 = s[3];
    assert(h == ((b0 as u32) << 24) | ((b1 as u32) << 16) | ((b2 as u32) << 8) | (b3 as u32));
    assert(((((((b0 as u32) << 24) | ((b1 as u32) << 16) | ((b2 as u32) << 8) | (b3 as u32)))
        >> 24) as u8) == b0) by (bit_vector);
    assert(((((((b0 as u32) << 24) | ((b1 as u32) << 16) | ((b2 as u32) << 8) | (b3 as u32)))
        >> 16) as u8) == b1) by (bit_vector);
    assert(((((((b0 as u32) << 24) | ((b1 as u32) << 16) | ((b2 as u32) << 8) | (b3 as u32)))
        >> 8) as u8) == b2) by (bit_vector);
    assert((((((b0 as u32) << 24) | ((b1 as u32) << 16) | ((b2 as u32) << 8) | (b3 as u32))) as u8)
        == b3) by (bit_vector);
    assert(senc_u32(h) =~= s);
}

// ---------------------------------------------------------------------------
// Executable encoders: append to an output buffer.
// ---------------------------------------------------------------------------

pub fn enc_u8(out: &mut Vec<u8>, x: u8)
    ensures
        final(out)@ == old(out)@ + senc_u8(x),
{
    out.push(x);
    assert(final(out)@ =~= old(out)@ + senc_u8(x));
}

pub fn enc_u16(out: &mut Vec<u8>, x: u16)
    ensures
        final(out)@ == old(out)@ + senc_u16(x),
{
    out.push((x >> 8) as u8);
    out.push(x as u8);
    assert(final(out)@ =~= old(out)@ + senc_u16(x));
}

pub fn enc_u32(out: &mut Vec<u8>, x: u32)
    ensures
        final(out)@ == old(out)@ + senc_u32(x),
{
    out.push((x >> 24) as u8);
    out.push((x >> 16) as u8);
    out.push((x >> 8) as u8);
    out.push(x as u8);
    assert(final(out)@ =~= old(out)@ + senc_u32(x));
}

pub fn enc_u64(out: &mut Vec<u8>, x: u64)
    ensures
        final(out)@ == old(out)@ + senc_u64(x),
{
    out.push((x >> 56) as u8);
    out.push((x >> 48) as u8);
    out.push((x >> 40) as u8);
    out.push((x >> 32) as u8);
    out.push((x >> 24) as u8);
    out.push((x >> 16) as u8);
    out.push((x >> 8) as u8);
    out.push(x as u8);
    assert(final(out)@ =~= old(out)@ + senc_u64(x));
}

pub fn enc_u128(out: &mut Vec<u8>, x: u128)
    ensures
        final(out)@ == old(out)@ + senc_u128(x),
{
    enc_u64(out, (x >> 64) as u64);
    enc_u64(out, x as u64);
    assert(final(out)@ =~= old(out)@ + senc_u128(x));
}

pub fn enc_raw(out: &mut Vec<u8>, b: &Vec<u8>)
    ensures
        final(out)@ == old(out)@ + b@,
{
    let n: usize = b.len();
    let mut i: usize = 0;
    while i < n
        invariant
            n == b@.len(),
            i <= n,
            out@ == old(out)@ + b@.subrange(0, i as int),
        decreases n - i,
    {
        out.push(b[i]);
        assert(old(out)@ + b@.subrange(0, i as int) + seq![b@[i as int]] =~= old(out)@
            + b@.subrange(0, i as int + 1));
        i += 1;
    }
    assert(old(out)@ + b@.subrange(0, n as int) =~= old(out)@ + b@);
}

pub fn enc_varbytes(out: &mut Vec<u8>, b: &Vec<u8>)
    requires
        b@.len() < 0x1_0000_0000,
    ensures
        final(out)@ == old(out)@ + senc_varbytes(b@),
{
    enc_u32(out, b.len() as u32);
    enc_raw(out, b);
    assert(final(out)@ =~= old(out)@ + senc_varbytes(b@));
}

pub fn enc_bool(out: &mut Vec<u8>, b: bool)
    ensures
        final(out)@ == old(out)@ + senc_bool(b),
{
    out.push(if b { 1u8 } else { 0u8 });
    assert(final(out)@ =~= old(out)@ + senc_bool(b));
}

// ---------------------------------------------------------------------------
// Executable decoders: mirror the spec decoders exactly.
// ---------------------------------------------------------------------------

pub fn dec_u8(inp: &Vec<u8>, i: usize) -> (r: Option<(u8, usize)>)
    ensures
        match r {
            Some((v, j)) => sdec_u8(inp@, i as int) == Some((v, j as int)) && j <= inp@.len(),
            None => sdec_u8(inp@, i as int) is None,
        },
{
    proof {
        reveal(sdec_u8);
    }
    if i < inp.len() {
        Some((inp[i], i + 1))
    } else {
        None
    }
}

pub fn dec_u16(inp: &Vec<u8>, i: usize) -> (r: Option<(u16, usize)>)
    ensures
        match r {
            Some((v, j)) => sdec_u16(inp@, i as int) == Some((v, j as int)) && j <= inp@.len(),
            None => sdec_u16(inp@, i as int) is None,
        },
{
    proof {
        reveal(sdec_u16);
    }
    if i < inp.len() && inp.len() - i >= 2 {
        Some((((inp[i] as u16) << 8) | (inp[i + 1] as u16), i + 2))
    } else {
        None
    }
}

pub fn dec_u32(inp: &Vec<u8>, i: usize) -> (r: Option<(u32, usize)>)
    ensures
        match r {
            Some((v, j)) => sdec_u32(inp@, i as int) == Some((v, j as int)) && j <= inp@.len()
                && j == i + 4,
            None => sdec_u32(inp@, i as int) is None,
        },
{
    proof {
        reveal(sdec_u32);
    }
    if i < inp.len() && inp.len() - i >= 4 {
        Some(
            (
                ((inp[i] as u32) << 24) | ((inp[i + 1] as u32) << 16) | ((inp[i + 2] as u32) << 8)
                    | (inp[i + 3] as u32),
                i + 4,
            ),
        )
    } else {
        None
    }
}

pub fn dec_u64(inp: &Vec<u8>, i: usize) -> (r: Option<(u64, usize)>)
    ensures
        match r {
            Some((v, j)) => sdec_u64(inp@, i as int) == Some((v, j as int)) && j <= inp@.len(),
            None => sdec_u64(inp@, i as int) is None,
        },
{
    proof {
        reveal(sdec_u64);
    }
    if i < inp.len() && inp.len() - i >= 8 {
        Some(
            (
                ((inp[i] as u64) << 56) | ((inp[i + 1] as u64) << 48) | ((inp[i + 2] as u64) << 40)
                    | ((inp[i + 3] as u64) << 32) | ((inp[i + 4] as u64) << 24) | ((inp[i
                    + 5] as u64) << 16) | ((inp[i + 6] as u64) << 8) | (inp[i + 7] as u64),
                i + 8,
            ),
        )
    } else {
        None
    }
}

pub fn dec_u128(inp: &Vec<u8>, i: usize) -> (r: Option<(u128, usize)>)
    ensures
        match r {
            Some((v, j)) => sdec_u128(inp@, i as int) == Some((v, j as int)) && j <= inp@.len(),
            None => sdec_u128(inp@, i as int) is None,
        },
{
    proof {
        reveal(sdec_u128);
    }
    match dec_u64(inp, i) {
        Some((hi, j)) => match dec_u64(inp, j) {
            Some((lo, k)) => Some((((hi as u128) << 64) | (lo as u128), k)),
            None => None,
        },
        None => None,
    }
}

/// The bytes `inp[from..to]` as a fresh vector.
pub fn copy_range(inp: &Vec<u8>, from: usize, to: usize) -> (r: Vec<u8>)
    requires
        from <= to <= inp@.len(),
    ensures
        r@ == inp@.subrange(from as int, to as int),
{
    let mut out: Vec<u8> = Vec::new();
    let mut i: usize = from;
    while i < to
        invariant
            from <= i <= to <= inp@.len(),
            out@ == inp@.subrange(from as int, i as int),
        decreases to - i,
    {
        out.push(inp[i]);
        assert(inp@.subrange(from as int, i as int) + seq![inp@[i as int]] =~= inp@.subrange(
            from as int,
            i as int + 1,
        ));
        i += 1;
    }
    out
}

pub fn dec_b32(inp: &Vec<u8>, i: usize) -> (r: Option<(Vec<u8>, usize)>)
    ensures
        match r {
            Some((v, j)) => sdec_b32(inp@, i as int) == Some((v@, j as int)) && j <= inp@.len()
                && v@.len() == 32,
            None => sdec_b32(inp@, i as int) is None,
        },
{
    proof {
        reveal(sdec_b32);
    }
    if i < inp.len() && inp.len() - i >= 32 {
        Some((copy_range(inp, i, i + 32), i + 32))
    } else {
        None
    }
}

pub fn dec_varbytes(inp: &Vec<u8>, i: usize) -> (r: Option<(Vec<u8>, usize)>)
    ensures
        match r {
            Some((v, j)) => sdec_varbytes(inp@, i as int) == Some((v@, j as int)) && j
                <= inp@.len() && v@.len() < 0x1_0000_0000,
            None => sdec_varbytes(inp@, i as int) is None,
        },
{
    proof {
        reveal(sdec_varbytes);
    }
    match dec_u32(inp, i) {
        Some((n, j)) => {
            if n as usize <= inp.len() - j {
                let end: usize = j + n as usize;
                Some((copy_range(inp, j, end), end))
            } else {
                None
            }
        },
        None => None,
    }
}

pub fn dec_bool(inp: &Vec<u8>, i: usize) -> (r: Option<(bool, usize)>)
    ensures
        match r {
            Some((v, j)) => sdec_bool(inp@, i as int) == Some((v, j as int)) && j <= inp@.len(),
            None => sdec_bool(inp@, i as int) is None,
        },
{
    proof {
        reveal(sdec_bool);
    }
    match dec_u8(inp, i) {
        Some((t, j)) => {
            if t == 0 {
                Some((false, j))
            } else if t == 1 {
                Some((true, j))
            } else {
                None
            }
        },
        None => None,
    }
}


// ---------------------------------------------------------------------------
// Option combinators: a one-byte marker, then the payload.
// ---------------------------------------------------------------------------

pub open spec fn senc_opt_b32(o: Option<Seq<u8>>) -> Seq<u8> {
    match o {
        None => seq![0u8],
        Some(b) => seq![1u8] + b,
    }
}

pub open spec fn sdec_opt_b32(s: Seq<u8>, i: int) -> Option<(Option<Seq<u8>>, int)> {
    match sdec_u8(s, i) {
        Some((t, j)) => {
            if t == 0 {
                Some((None, j))
            } else if t == 1 {
                match sdec_b32(s, j) {
                    Some((b, k)) => Some((Some(b), k)),
                    None => None,
                }
            } else {
                None
            }
        },
        None => None,
    }
}

pub open spec fn senc_opt_u32(o: Option<u32>) -> Seq<u8> {
    match o {
        None => seq![0u8],
        Some(x) => seq![1u8] + senc_u32(x),
    }
}

pub open spec fn sdec_opt_u32(s: Seq<u8>, i: int) -> Option<(Option<u32>, int)> {
    match sdec_u8(s, i) {
        Some((t, j)) => {
            if t == 0 {
                Some((None, j))
            } else if t == 1 {
                match sdec_u32(s, j) {
                    Some((x, k)) => Some((Some(x), k)),
                    None => None,
                }
            } else {
                None
            }
        },
        None => None,
    }
}

pub open spec fn senc_opt_varbytes(o: Option<Seq<u8>>) -> Seq<u8> {
    match o {
        None => seq![0u8],
        Some(b) => seq![1u8] + senc_varbytes(b),
    }
}

pub open spec fn sdec_opt_varbytes(s: Seq<u8>, i: int) -> Option<(Option<Seq<u8>>, int)> {
    match sdec_u8(s, i) {
        Some((t, j)) => {
            if t == 0 {
                Some((None, j))
            } else if t == 1 {
                match sdec_varbytes(s, j) {
                    Some((b, k)) => Some((Some(b), k)),
                    None => None,
                }
            } else {
                None
            }
        },
        None => None,
    }
}


/// Regrouping of concatenations, used to slide a decoding window along an
/// encoded record without re-proving extensional equality at each instance.
pub proof fn lemma_assoc3(a: Seq<u8>, b: Seq<u8>, c: Seq<u8>)
    ensures
        a + (b + c) == (a + b) + c,
{
    assert(a + (b + c) =~= (a + b) + c);
}

pub proof fn lemma_regroup(a: Seq<u8>, b: Seq<u8>, c: Seq<u8>, d: Seq<u8>)
    ensures
        a + (b + c) + d == (a + b) + c + d,
        a + (b + c) + d == (a + b) + (c + d),
{
    assert(a + (b + c) + d =~= (a + b) + c + d);
    assert(a + (b + c) + d =~= (a + b) + (c + d));
}

pub proof fn lemma_dec_enc_opt_b32(o: Option<Seq<u8>>, pre: Seq<u8>, post: Seq<u8>)
    requires
        match o {
            Some(b) => b.len() == 32,
            None => true,
        },
    ensures
        sdec_opt_b32(pre + senc_opt_b32(o) + post, pre.len() as int) == Some(
            (o, pre.len() as int + senc_opt_b32(o).len()),
        ),
{
    let s = pre + senc_opt_b32(o) + post;
    let i = pre.len() as int;
    match o {
        None => {
            assert(senc_opt_b32(o) == senc_u8(0u8));
            lemma_dec_enc_u8(0u8, pre, post);
        },
        Some(b) => {
            let e = senc_b32(b);
            lemma_regroup(pre, seq![1u8], e, post);
            assert(seq![1u8] == senc_u8(1u8));
            lemma_dec_enc_u8(1u8, pre, e + post);
            lemma_dec_enc_b32(b, pre + seq![1u8], post);
            assert(senc_opt_b32(o).len() == 1 + e.len());
        },
    }
}

pub proof fn lemma_dec_enc_opt_u32(o: Option<u32>, pre: Seq<u8>, post: Seq<u8>)
    ensures
        sdec_opt_u32(pre + senc_opt_u32(o) + post, pre.len() as int) == Some(
            (o, pre.len() as int + senc_opt_u32(o).len()),
        ),
{
    let s = pre + senc_opt_u32(o) + post;
    let i = pre.len() as int;
    match o {
        None => {
            assert(senc_opt_u32(o) == senc_u8(0u8));
            lemma_dec_enc_u8(0u8, pre, post);
        },
        Some(x) => {
            let e = senc_u32(x);
            lemma_regroup(pre, seq![1u8], e, post);
            assert(seq![1u8] == senc_u8(1u8));
            lemma_dec_enc_u8(1u8, pre, e + post);
            lemma_dec_enc_u32(x, pre + seq![1u8], post);
            assert(senc_opt_u32(o).len() == 1 + e.len());
        },
    }
}

pub proof fn lemma_dec_enc_opt_varbytes(o: Option<Seq<u8>>, pre: Seq<u8>, post: Seq<u8>)
    requires
        match o {
            Some(b) => b.len() < 0x1_0000_0000,
            None => true,
        },
    ensures
        sdec_opt_varbytes(pre + senc_opt_varbytes(o) + post, pre.len() as int) == Some(
            (o, pre.len() as int + senc_opt_varbytes(o).len()),
        ),
{
    let s = pre + senc_opt_varbytes(o) + post;
    let i = pre.len() as int;
    match o {
        None => {
            assert(senc_opt_varbytes(o) == senc_u8(0u8));
            lemma_dec_enc_u8(0u8, pre, post);
        },
        Some(b) => {
            let e = senc_varbytes(b);
            lemma_regroup(pre, seq![1u8], e, post);
            assert(seq![1u8] == senc_u8(1u8));
            lemma_dec_enc_u8(1u8, pre, e + post);
            lemma_dec_enc_varbytes(b, pre + seq![1u8], post);
            assert(senc_opt_varbytes(o).len() == 1 + e.len());
        },
    }
}


// ---------------------------------------------------------------------------
// Executable encoders and decoders for typed fields.
// ---------------------------------------------------------------------------

pub fn enc_b32x(out: &mut Vec<u8>, b: &Bytes32)
    requires
        b.wf(),
    ensures
        final(out)@ == old(out)@ + senc_b32(b@),
{
    enc_raw(out, &b.bytes);
}

pub fn dec_b32x(inp: &Vec<u8>, i: usize) -> (r: Option<(Bytes32, usize)>)
    ensures
        match r {
            Some((v, j)) => sdec_b32(inp@, i as int) == Some((v@, j as int)) && j <= inp@.len()
                && v.wf(),
            None => sdec_b32(inp@, i as int) is None,
        },
{
    match dec_b32(inp, i) {
        Some((b, j)) => Some((Bytes32::new(b), j)),
        None => None,
    }
}

pub fn enc_opt_b32x(out: &mut Vec<u8>, o: &Option<Bytes32>)
    requires
        match o {
            Some(h) => h.wf(),
            None => true,
        },
    ensures
        final(out)@ == old(out)@ + senc_opt_b32(vopt_b32(*o)),
{
    match o {
        None => {
            enc_u8(out, 0);
            assert(final(out)@ =~= old(out)@ + senc_opt_b32(vopt_b32(*o)));
        },
        Some(h) => {
            enc_u8(out, 1);
            enc_b32x(out, h);
            proof {
                lemma_assoc3(old(out)@, seq![1u8], senc_b32(h@));
            }
        },
    }
}

pub fn dec_opt_b32x(inp: &Vec<u8>, i: usize) -> (r: Option<(Option<Bytes32>, usize)>)
    ensures
        match r {
            Some((v, j)) => sdec_opt_b32(inp@, i as int) == Some((vopt_b32(v), j as int)) && j
                <= inp@.len() && match v {
                Some(h) => h.wf(),
                None => true,
            },
            None => sdec_opt_b32(inp@, i as int) is None,
        },
{
    match dec_u8(inp, i) {
        Some((t, j)) => {
            if t == 0 {
                Some((None, j))
            } else if t == 1 {
                match dec_b32x(inp, j) {
                    Some((b, k)) => Some((Some(b), k)),
                    None => None,
                }
            } else {
                None
            }
        },
        None => None,
    }
}

pub fn enc_opt_u32(out: &mut Vec<u8>, o: &Option<u32>)
    ensures
        final(out)@ == old(out)@ + senc_opt_u32(*o),
{
    match o {
        None => {
            enc_u8(out, 0);
            assert(final(out)@ =~= old(out)@ + senc_opt_u32(*o));
        },
        Some(x) => {
            enc_u8(out, 1);
            enc_u32(out, *x);
            proof {
                lemma_assoc3(old(out)@, seq![1u8], senc_u32(*x));
            }
        },
    }
}

pub fn dec_opt_u32(inp: &Vec<u8>, i: usize) -> (r: Option<(Option<u32>, usize)>)
    ensures
        match r {
            Some((v, j)) => sdec_opt_u32(inp@, i as int) == Some((v, j as int)) && j <= inp@.len(),
            None => sdec_opt_u32(inp@, i as int) is None,
        },
{
    match dec_u8(inp, i) {
        Some((t, j)) => {
            if t == 0 {
                Some((None, j))
            } else if t == 1 {
                match dec_u32(inp, j) {
                    Some((x, k)) => Some((Some(x), k)),
                    None => None,
                }
            } else {
                None
            }
        },
        None => None,
    }
}

pub fn enc_opt_bytes(out: &mut Vec<u8>, o: &Option<Vec<u8>>)
    requires
        match o {
            Some(b) => b@.len() < 0x1_0000_0000,
            None => true,
        },
    ensures
        final(out)@ == old(out)@ + senc_opt_varbytes(vopt_bytes(*o)),
{
    match o {
        None => {
            enc_u8(out, 0);
            assert(final(out)@ =~= old(out)@ + senc_opt_varbytes(vopt_bytes(*o)));
        },
        Some(b) => {
            enc_u8(out, 1);
            enc_varbytes(out, b);
            proof {
                lemma_assoc3(old(out)@, seq![1u8], senc_varbytes(b@));
            }
        },
    }
}

pub fn dec_opt_bytes(inp: &Vec<u8>, i: usize) -> (r: Option<(Option<Vec<u8>>, usize)>)
    ensures
        match r {
            Some((v, j)) => sdec_opt_varbytes(inp@, i as int) == Some((vopt_bytes(v), j as int))
                && j <= inp@.len() && match v {
                Some(b) => b@.len() < 0x1_0000_0000,
                None => true,
            },
            None => sdec_opt_varbytes(inp@, i as int) is None,
        },
{
    match dec_u8(inp, i) {
        Some((t, j)) => {
            if t == 0 {
                Some((None, j))
            } else if t == 1 {
                match dec_varbytes(inp, j) {
                    Some((b, k)) => Some((Some(b), k)),
                    None => None,
                }
            } else {
                None
            }
        },
        None => None,
    }
}


// ---------------------------------------------------------------------------
// Record codec: Coin.
// ---------------------------------------------------------------------------

pub open spec fn senc_coin(v: CoinV) -> Seq<u8> {
    senc_b32(v.parent_coin_id) + (senc_b32(v.puzzle_hash) + senc_u64(v.amount))
}

pub open spec fn sdec_coin(s: Seq<u8>, i: int) -> Option<(CoinV, int)> {
    match sdec_b32(s, i) {
        Some((f0, i0)) => match sdec_b32(s, i0) {
            Some((f1, i1)) => match sdec_u64(s, i1) {
                Some((f2, i2)) => Some(
                    (CoinV { parent_coin_id: f0, puzzle_hash: f1, amount: f2 }, i2),
                ),
                None => None,
            },
            None => None,
        },
        None => None,
    }
}

pub proof fn lemma_dec_enc_coin(v: CoinV, pre: Seq<u8>, post: Seq<u8>)
    requires
        v.wf(),
    ensures
        sdec_coin(pre + senc_coin(v) + post, pre.len() as int) == Some(
            (v, pre.len() as int + senc_coin(v).len()),
        ),
{
    let e0 = senc_b32(v.parent_coin_id);
    let e1 = senc_b32(v.puzzle_hash);
    let e2 = senc_u64(v.amount);
    let s = pre + senc_coin(v) + post;
    let p1 = pre + e0;
    let p2 = p1 + e1;
    lemma_regroup(pre, e0, e1 + e2, post);
    lemma_dec_enc_b32(v.parent_coin_id, pre, (e1 + e2) + post);
    assert(sdec_b32(s, pre.len() as int) == Some((v.parent_coin_id, p1.len() as int)));
    lemma_regroup(p1, e1, e2, post);
    lemma_dec_enc_b32(v.puzzle_hash, p1, e2 + post);
    assert(sdec_b32(s, p1.len() as int) == Some((v.puzzle_hash, p2.len() as int)));
    lemma_dec_enc_u64(v.amount, p2, post);
    assert(sdec_u64(s, p2.len() as int) == Some((v.amount, p2.len() as int + 8)));
    assert((CoinV { parent_coin_id: v.parent_coin_id, puzzle_hash: v.puzzle_hash, amount: v.amount })
        =~= v);
}

pub fn enc_coin(out: &mut Vec<u8>, v: &Coin)
    requires
        v.wf(),
    ensures
        final(out)@ == old(out)@ + senc_coin(v@),
{
    enc_b32x(out, &v.parent_coin_id);
    enc_b32x(out, &v.puzzle_hash);
    enc_u64(out, v.amount);
    proof {
        let e0 = senc_b32(v.parent_coin_id@);
        let e1 = senc_b32(v.puzzle_hash@);
        let e2 = senc_u64(v.amount);
        lemma_assoc3(old(out)@ + e0, e1, e2);
        lemma_assoc3(old(out)@, e0, e1 + e2);
    }
}

pub fn dec_coin(inp: &Vec<u8>, i: usize) -> (r: Option<(Coin, usize)>)
    ensures
        match r {
            Some((v, j)) => sdec_coin(inp@, i as int) == Some((v@, j as int)) && j <= inp@.len()
                && v.wf(),
            None => sdec_coin(inp@, i as int) is None,
        },
{
    match dec_b32x(inp, i) {
        Some((f0, i0)) => match dec_b32x(inp, i0) {
            Some((f1, i1)) => match dec_u64(inp, i1) {
                Some((f2, i2)) => Some(
                    (Coin { parent_coin_id: f0, puzzle_hash: f1, amount: f2 }, i2),
                ),
                None => None,
            },
            None => None,
        },
        None => None,
    }
}

// ---------------------------------------------------------------------------
// Record codec: remaining records, following the same pattern as Coin.
// ---------------------------------------------------------------------------

pub open spec fn senc_ti(v: TransactionInfoV) -> Seq<u8> {
    senc_u64(v.timestamp) + (senc_u64(v.fees) + (senc_u64(v.cost) + (senc_u32(v.additions) + (senc_u32(v.removals) + (senc_b32(v.prev_transaction_block_hash))))))
}

pub open spec fn sdec_ti(s: Seq<u8>, i: int) -> Option<(TransactionInfoV, int)> {
    match sdec_u64(s, i) {
        Some((f0, i0)) =>         match sdec_u64(s, i0) {
            Some((f1, i1)) =>             match sdec_u64(s, i1) {
                Some((f2, i2)) =>                 match sdec_u32(s, i2) {
                    Some((f3, i3)) =>                     match sdec_u32(s, i3) {
                        Some((f4, i4)) =>                         match sdec_b32(s, i4) {
                            Some((f5, i5)) => Some((
                            TransactionInfoV { timestamp: f0, fees: f1, cost: f2, additions: f3, removals: f4, prev_transaction_block_hash: f5 },
                            i5,
                            )),
                            None => None,
                        }
                        None => None,
                    }
                    None => None,
                }
                None => None,
            }
            None => None,
        }
        None => None,
    }
}

#[verifier::rlimit(100)]
#[verifier::spinoff_prover]
pub proof fn lemma_dec_enc_ti(v: TransactionInfoV, pre: Seq<u8>, post: Seq<u8>)
    requires
        v.wf(),
    ensures
        sdec_ti(pre + senc_ti(v) + post, pre.len() as int) == Some(
            (v, pre.len() as int + senc_ti(v).len()),
        ),
{
    let e0 = senc_u64(v.timestamp);
    let e1 = senc_u64(v.fees);
    let e2 = senc_u64(v.cost);
    let e3 = senc_u32(v.additions);
    let e4 = senc_u32(v.removals);
    let e5 = senc_b32(v.prev_transaction_block_hash);
    let s = pre + senc_ti(v) + post;
    let p0 = pre;
    let p1 = p0 + e0;
    let p2 = p1 + e1;
    let p3 = p2 + e2;
    let p4 = p3 + e3;
    let p5 = p4 + e4;
    lemma_regroup(p0, e0, e1 + (e2 + (e3 + (e4 + (e5)))), post);
    lemma_dec_enc_u64(v.timestamp, p0, (e1 + (e2 + (e3 + (e4 + (e5))))) + post);
    lemma_regroup(p1, e1, e2 + (e3 + (e4 + (e5))), post);
    lemma_dec_enc_u64(v.fees, p1, (e2 + (e3 + (e4 + (e5)))) + post);
    lemma_regroup(p2, e2, e3 + (e4 + (e5)), post);
    lemma_dec_enc_u64(v.cost, p2, (e3 + (e4 + (e5))) + post);
    lemma_regroup(p3, e3, e4 + (e5), post);
    lemma_dec_enc_u32(v.additions, p3, (e4 + (e5)) + post);
    lemma_regroup(p4, e4, e5, post);
    lemma_dec_enc_u32(v.removals, p4, (e5) + post);
    lemma_dec_enc_b32(v.prev_transaction_block_hash, p5, post);
    assert((TransactionInfoV { timestamp: v.timestamp, fees: v.fees, cost: v.cost, additions: v.additions, removals: v.removals, prev_transaction_block_hash: v.prev_transaction_block_hash }) =~= v);
}

pub fn enc_ti(out: &mut Vec<u8>, v: &TransactionInfo)
    requires
        v.wf(),
    ensures
        final(out)@ == old(out)@ + senc_ti(v@),
{
    enc_u64(out, v.timestamp);
    enc_u64(out, v.fees);
    enc_u64(out, v.cost);
    enc_u32(out, v.additions);
    enc_u32(out, v.removals);
    enc_b32x(out, &v.prev_transaction_block_hash);
    proof {
        let o = old(out)@;
        let e0 = senc_u64(v.timestamp);
        let e1 = senc_u64(v.fees);
        let e2 = senc_u64(v.cost);
        let e3 = senc_u32(v.additions);
        let e4 = senc_u32(v.removals);
        let e5 = senc_b32(v.prev_transaction_block_hash@);
        lemma_assoc3(o + e0 + e1 + e2 + e3, e4, e5);
        lemma_assoc3(o + e0 + e1 + e2, e3, e4 + (e5));
        lemma_assoc3(o + e0 + e1, e2, e3 + (e4 + (e5)));
        lemma_assoc3(o + e0, e1, e2 + (e3 + (e4 + (e5))));
        lemma_assoc3(o, e0, e1 + (e2 + (e3 + (e4 + (e5)))));
    }
}

pub fn dec_ti(inp: &Vec<u8>, i: usize) -> (r: Option<(TransactionInfo, usize)>)
    ensures
        match r {
            Some((v, j)) => sdec_ti(inp@, i as int) == Some((v@, j as int)) && j <= inp@.len()
                && v@.wf(),
            None => sdec_ti(inp@, i as int) is None,
        },
{
    match dec_u64(inp, i) {
        Some((f0, i0)) =>         match dec_u64(inp, i0) {
            Some((f1, i1)) =>             match dec_u64(inp, i1) {
                Some((f2, i2)) =>                 match dec_u32(inp, i2) {
                    Some((f3, i3)) =>                     match dec_u32(inp, i3) {
                        Some((f4, i4)) =>                         match dec_b32x(inp, i4) {
                            Some((f5, i5)) => Some((
                            TransactionInfo { timestamp: f0, fees: f1, cost: f2, additions: f3, removals: f4, prev_transaction_block_hash: f5 },
                            i5,
                            )),
                            None => None,
                        }
                        None => None,
                    }
                    None => None,
                }
                None => None,
            }
            None => None,
        }
        None => None,
    }
}

pub open spec fn senc_opt_ti(o: Option<TransactionInfoV>) -> Seq<u8> {
    match o {
        None => seq![0u8],
        Some(x) => seq![1u8] + senc_ti(x),
    }
}

pub open spec fn sdec_opt_ti(s: Seq<u8>, i: int) -> Option<(Option<TransactionInfoV>, int)> {
    match sdec_u8(s, i) {
        Some((t, j)) => {
            if t == 0 {
                Some((None, j))
            } else if t == 1 {
                match sdec_ti(s, j) {
                    Some((x, k)) => Some((Some(x), k)),
                    None => None,
                }
            } else {
                None
            }
        },
        None => None,
    }
}

pub proof fn lemma_dec_enc_opt_ti(o: Option<TransactionInfoV>, pre: Seq<u8>, post: Seq<u8>)
    requires
        match o {
            Some(x) => x.wf(),
            None => true,
        },
    ensures
        sdec_opt_ti(pre + senc_opt_ti(o) + post, pre.len() as int) == Some(
            (o, pre.len() as int + senc_opt_ti(o).len()),
        ),
{
    let s = pre + senc_opt_ti(o) + post;
    let i = pre.len() as int;
    match o {
        None => {
            assert(senc_opt_ti(o) == senc_u8(0u8));
            lemma_dec_enc_u8(0u8, pre, post);
        },
        Some(x) => {
            let e = senc_ti(x);
            lemma_regroup(pre, seq![1u8], e, post);
            assert(seq![1u8] == senc_u8(1u8));
            lemma_dec_enc_u8(1u8, pre, e + post);
            lemma_dec_enc_ti(x, pre + seq![1u8], post);
            assert(senc_opt_ti(o).len() == 1 + e.len());
        },
    }
}

pub fn enc_opt_ti(out: &mut Vec<u8>, o: &Option<TransactionInfo>)
    requires
        match o {
            Some(x) => x@.wf(),
            None => true,
        },
    ensures
        final(out)@ == old(out)@ + senc_opt_ti(vopt_ti(*o)),
{
    match o {
        None => {
            enc_u8(out, 0);
            assert(final(out)@ =~= old(out)@ + senc_opt_ti(vopt_ti(*o)));
        },
        Some(x) => {
            enc_u8(out, 1);
            enc_ti(out, x);
            proof {
                lemma_assoc3(old(out)@, seq![1u8], senc_ti(x@));
            }
        },
    }
}

pub fn dec_opt_ti(inp: &Vec<u8>, i: usize) -> (r: Option<(Option<TransactionInfo>, usize)>)
    ensures
        match r {
            Some((v, j)) => sdec_opt_ti(inp@, i as int) == Some((vopt_ti(v), j as int))
                && j <= inp@.len() && match v {
                Some(x) => x@.wf(),
                None => true,
            },
            None => sdec_opt_ti(inp@, i as int) is None,
        },
{
    match dec_u8(inp, i) {
        Some((t, j)) => {
            if t == 0 {
                Some((None, j))
            } else if t == 1 {
                match dec_ti(inp, j) {
                    Some((x, k)) => Some((Some(x), k)),
                    None => None,
                }
            } else {
                None
            }
        },
        None => None,
    }
}

pub open spec fn senc_slp(v: SingletonLineageProofV) -> Seq<u8> {
    senc_b32(v.parent_parent_coin_id) + (senc_opt_b32(v.parent_inner_puzzle_hash) + (senc_u64(v.parent_amount)))
}

pub open spec fn sdec_slp(s: Seq<u8>, i: int) -> Option<(SingletonLineageProofV, int)> {
    match sdec_b32(s, i) {
        Some((f0, i0)) =>         match sdec_opt_b32(s, i0) {
            Some((f1, i1)) =>             match sdec_u64(s, i1) {
                Some((f2, i2)) => Some((
                SingletonLineageProofV { parent_parent_coin_id: f0, parent_inner_puzzle_hash: f1, parent_amount: f2 },
                i2,
                )),
                None => None,
            }
            None => None,
        }
        None => None,
    }
}

pub proof fn lemma_dec_enc_slp(v: SingletonLineageProofV, pre: Seq<u8>, post: Seq<u8>)
    requires
        v.wf(),
    ensures
        sdec_slp(pre + senc_slp(v) + post, pre.len() as int) == Some(
            (v, pre.len() as int + senc_slp(v).len()),
        ),
{
    let e0 = senc_b32(v.parent_parent_coin_id);
    let e1 = senc_opt_b32(v.parent_inner_puzzle_hash);
    let e2 = senc_u64(v.parent_amount);
    let s = pre + senc_slp(v) + post;
    let p0 = pre;
    let p1 = p0 + e0;
    let p2 = p1 + e1;
    lemma_regroup(p0, e0, e1 + (e2), post);
    lemma_dec_enc_b32(v.parent_parent_coin_id, p0, (e1 + (e2)) + post);
    assert(sdec_b32(s, p0.len() as int) == Some((v.parent_parent_coin_id, p0.len() as int + e0.len())));
    lemma_regroup(p1, e1, e2, post);
    lemma_dec_enc_opt_b32(v.parent_inner_puzzle_hash, p1, (e2) + post);
    assert(sdec_opt_b32(s, p1.len() as int) == Some((v.parent_inner_puzzle_hash, p1.len() as int + e1.len())));
    lemma_dec_enc_u64(v.parent_amount, p2, post);
    assert(sdec_u64(s, p2.len() as int) == Some((v.parent_amount, p2.len() as int + e2.len())));
    assert((SingletonLineageProofV { parent_parent_coin_id: v.parent_parent_coin_id, parent_inner_puzzle_hash: v.parent_inner_puzzle_hash, parent_amount: v.parent_amount }) =~= v);
}

pub fn enc_slp(out: &mut Vec<u8>, v: &SingletonLineageProof)
    requires
        v.wf(),
    ensures
        final(out)@ == old(out)@ + senc_slp(v@),
{
    enc_b32x(out, &v.parent_parent_coin_id);
    enc_opt_b32x(out, &v.parent_inner_puzzle_hash);
    enc_u64(out, v.parent_amount);
    proof {
        let o = old(out)@;
        let e0 = senc_b32(v.parent_parent_coin_id@);
        let e1 = senc_opt_b32(vopt_b32(v.parent_inner_puzzle_hash));
        let e2 = senc_u64(v.parent_amount);
        lemma_assoc3(o + e0, e1, e2);
        lemma_assoc3(o, e0, e1 + (e2));
    }
}

pub fn dec_slp(inp: &Vec<u8>, i: usize) -> (r: Option<(SingletonLineageProof, usize)>)
    ensures
        match r {
            Some((v, j)) => sdec_slp(inp@, i as int) == Some((v@, j as int)) && j <= inp@.len()
                && v@.wf(),
            None => sdec_slp(inp@, i as int) is None,
        },
{
    match dec_b32x(inp, i) {
        Some((f0, i0)) =>         match dec_opt_b32x(inp, i0) {
            Some((f1, i1)) =>             match dec_u64(inp, i1) {
                Some((f2, i2)) => Some((
                SingletonLineageProof { parent_parent_coin_id: f0, parent_inner_puzzle_hash: f1, parent_amount: f2 },
                i2,
                )),
                None => None,
            }
            None => None,
        }
        None => None,
    }
}

pub open spec fn senc_clp(v: CatLineageProofV) -> Seq<u8> {
    senc_b32(v.parent_parent_coin_id) + (senc_b32(v.parent_inner_puzzle_hash) + (senc_u64(v.parent_amount)))
}

pub open spec fn sdec_clp(s: Seq<u8>, i: int) -> Option<(CatLineageProofV, int)> {
    match sdec_b32(s, i) {
        Some((f0, i0)) =>         match sdec_b32(s, i0) {
            Some((f1, i1)) =>             match sdec_u64(s, i1) {
                Some((f2, i2)) => Some((
                CatLineageProofV { parent_parent_coin_id: f0, parent_inner_puzzle_hash: f1, parent_amount: f2 },
                i2,
                )),
                None => None,
            }
            None => None,
        }
        None => None,
    }
}

pub proof fn lemma_dec_enc_clp(v: CatLineageProofV, pre: Seq<u8>, post: Seq<u8>)
    requires
        v.wf(),
    ensures
        sdec_clp(pre + senc_clp(v) + post, pre.len() as int) == Some(
            (v, pre.len() as int + senc_clp(v).len()),
        ),
{
    let e0 = senc_b32(v.parent_parent_coin_id);
    let e1 = senc_b32(v.parent_inner_puzzle_hash);
    let e2 = senc_u64(v.parent_amount);
    let s = pre + senc_clp(v) + post;
    let p0 = pre;
    let p1 = p0 + e0;
    let p2 = p1 + e1;
    lemma_regroup(p0, e0, e1 + (e2), post);
    lemma_dec_enc_b32(v.parent_parent_coin_id, p0, (e1 + (e2)) + post);
    assert(sdec_b32(s, p0.len() as int) == Some((v.parent_parent_coin_id, p0.len() as int + e0.len())));
    lemma_regroup(p1, e1, e2, post);
    lemma_dec_enc_b32(v.parent_inner_puzzle_hash, p1, (e2) + post);
    assert(sdec_b32(s, p1.len() as int) == Some((v.parent_inner_puzzle_hash, p1.len() as int + e1.len())));
    lemma_dec_enc_u64(v.parent_amount, p2, post);
    assert(sdec_u64(s, p2.len() as int) == Some((v.parent_amount, p2.len() as int + e2.len())));
    assert((CatLineageProofV { parent_parent_coin_id: v.parent_parent_coin_id, parent_inner_puzzle_hash: v.parent_inner_puzzle_hash, parent_amount: v.parent_amount }) =~= v);
}

pub fn enc_clp(out: &mut Vec<u8>, v: &CatLineageProof)
    requires
        v.wf(),
    ensures
        final(out)@ == old(out)@ + senc_clp(v@),
{
    enc_b32x(out, &v.parent_parent_coin_id);
    enc_b32x(out, &v.parent_inner_puzzle_hash);
    enc_u64(out, v.parent_amount);
    proof {
        let o = old(out)@;
        let e0 = senc_b32(v.parent_parent_coin_id@);
        let e1 = senc_b32(v.parent_inner_puzzle_hash@);
        let e2 = senc_u64(v.parent_amount);
        lemma_assoc3(o + e0, e1, e2);
        lemma_assoc3(o, e0, e1 + (e2));
    }
}

pub fn dec_clp(inp: &Vec<u8>, i: usize) -> (r: Option<(CatLineageProof, usize)>)
    ensures
        match r {
            Some((v, j)) => sdec_clp(inp@, i as int) == Some((v@, j as int)) && j <= inp@.len()
                && v@.wf(),
            None => sdec_clp(inp@, i as int) is None,
        },
{
    match dec_b32x(inp, i) {
        Some((f0, i0)) =>         match dec_b32x(inp, i0) {
            Some((f1, i1)) =>             match dec_u64(inp, i1) {
                Some((f2, i2)) => Some((
                CatLineageProof { parent_parent_coin_id: f0, parent_inner_puzzle_hash: f1, parent_amount: f2 },
                i2,
                )),
                None => None,
            }
            None => None,
        }
        None => None,
    }
}

pub open spec fn senc_opt_clp(o: Option<CatLineageProofV>) -> Seq<u8> {
    match o {
        None => seq![0u8],
        Some(x) => seq![1u8] + senc_clp(x),
    }
}

pub open spec fn sdec_opt_clp(s: Seq<u8>, i: int) -> Option<(Option<CatLineageProofV>, int)> {
    match sdec_u8(s, i) {
        Some((t, j)) => {
            if t == 0 {
                Some((None, j))
            } else if t == 1 {
                match sdec_clp(s, j) {
                    Some((x, k)) => Some((Some(x), k)),
                    None => None,
                }
            } else {
                None
            }
        },
        None => None,
    }
}

pub proof fn lemma_dec_enc_opt_clp(o: Option<CatLineageProofV>, pre: Seq<u8>, post: Seq<u8>)
    requires
        match o {
            Some(x) => x.wf(),
            None => true,
        },
    ensures
        sdec_opt_clp(pre + senc_opt_clp(o) + post, pre.len() as int) == Some(
            (o, pre.len() as int + senc_opt_clp(o).len()),
        ),
{
    let s = pre + senc_opt_clp(o) + post;
    let i = pre.len() as int;
    match o {
        None => {
            assert(senc_opt_clp(o) == senc_u8(0u8));
            lemma_dec_enc_u8(0u8, pre, post);
        },
        Some(x) => {
            let e = senc_clp(x);
            lemma_regroup(pre, seq![1u8], e, post);
            assert(seq![1u8] == senc_u8(1u8));
            lemma_dec_enc_u8(1u8, pre, e + post);
            lemma_dec_enc_clp(x, pre + seq![1u8], post);
            assert(senc_opt_clp(o).len() == 1 + e.len());
        },
    }
}

pub fn enc_opt_clp(out: &mut Vec<u8>, o: &Option<CatLineageProof>)
    requires
        match o {
            Some(x) => x@.wf(),
            None => true,
        },
    ensures
        final(out)@ == old(out)@ + senc_opt_clp(vopt_clp(*o)),
{
    match o {
        None => {
            enc_u8(out, 0);
            assert(final(out)@ =~= old(out)@ + senc_opt_clp(vopt_clp(*o)));
        },
        Some(x) => {
            enc_u8(out, 1);
            enc_clp(out, x);
            proof {
                lemma_assoc3(old(out)@, seq![1u8], senc_clp(x@));
            }
        },
    }
}

pub fn dec_opt_clp(inp: &Vec<u8>, i: usize) -> (r: Option<(Option<CatLineageProof>, usize)>)
    ensures
        match r {
            Some((v, j)) => sdec_opt_clp(inp@, i as int) == Some((vopt_clp(v), j as int))
                && j <= inp@.len() && match v {
                Some(x) => x@.wf(),
                None => true,
            },
            None => sdec_opt_clp(inp@, i as int) is None,
        },
{
    match dec_u8(inp, i) {
        Some((t, j)) => {
            if t == 0 {
                Some((None, j))
            } else if t == 1 {
                match dec_clp(inp, j) {
                    Some((x, k)) => Some((Some(x), k)),
                    None => None,
                }
            } else {
                None
            }
        },
        None => None,
    }
}

pub open spec fn senc_p2(v: P2PuzzleV) -> Seq<u8> {
    match v {
        P2PuzzleV::ClawbackV2 { sender_puzzle_hash, receiver_puzzle_hash, seconds, amount, hinted } => senc_u8(0) + (senc_b32(sender_puzzle_hash) + (senc_b32(receiver_puzzle_hash) + (senc_u64(seconds) + (senc_u64(amount) + (senc_bool(hinted)))))),
    }
}

pub open spec fn sdec_p2(s: Seq<u8>, i: int) -> Option<(P2PuzzleV, int)> {
    match sdec_u8(s, i) {
        Some((t, j)) => {
            if t == 0 {
                match sdec_b32(s, j) {
                    Some((f0, i0)) =>                     match sdec_b32(s, i0) {
                        Some((f1, i1)) =>                         match sdec_u64(s, i1) {
                            Some((f2, i2)) =>                             match sdec_u64(s, i2) {
                                Some((f3, i3)) =>                                 match sdec_bool(s, i3) {
                                    Some((f4, i4)) => Some((
                                    P2PuzzleV::ClawbackV2 { sender_puzzle_hash: f0, receiver_puzzle_hash: f1, seconds: f2, amount: f3, hinted: f4 },
                                    i4,
                                    )),
                                    None => None,
                                }
                                None => None,
                            }
                            None => None,
                        }
                        None => None,
                    }
                    None => None,
                }
            } else {
                None
            }
        },
        None => None,
    }
}

#[verifier::rlimit(100)]
#[verifier::spinoff_prover]
pub proof fn lemma_dec_enc_p2(v: P2PuzzleV, pre: Seq<u8>, post: Seq<u8>)
    requires
        v.wf(),
    ensures
        sdec_p2(pre + senc_p2(v) + post, pre.len() as int) == Some(
            (v, pre.len() as int + senc_p2(v).len()),
        ),
{
    let s = pre + senc_p2(v) + post;
    match v {
        P2PuzzleV::ClawbackV2 { sender_puzzle_hash, receiver_puzzle_hash, seconds, amount, hinted } => {
            let e0 = senc_u8(0);
            let e1 = senc_b32(sender_puzzle_hash);
            let e2 = senc_b32(receiver_puzzle_hash);
            let e3 = senc_u64(seconds);
            let e4 = senc_u64(amount);
            let e5 = senc_bool(hinted);
            let p0 = pre;
            let p1 = p0 + e0;
            let p2 = p1 + e1;
            let p3 = p2 + e2;
            let p4 = p3 + e3;
            let p5 = p4 + e4;
            lemma_regroup(p0, e0, e1 + (e2 + (e3 + (e4 + (e5)))), post);
            lemma_dec_enc_u8(0, p0, (e1 + (e2 + (e3 + (e4 + (e5))))) + post);
            assert(sdec_u8(s, p0.len() as int) == Some((0u8, p0.len() as int + 1)));
            lemma_regroup(p1, e1, e2 + (e3 + (e4 + (e5))), post);
            lemma_dec_enc_b32(sender_puzzle_hash, p1, (e2 + (e3 + (e4 + (e5)))) + post);
            assert(sdec_b32(s, p1.len() as int) == Some((sender_puzzle_hash, p1.len() as int + e1.len())));
            lemma_regroup(p2, e2, e3 + (e4 + (e5)), post);
            lemma_dec_enc_b32(receiver_puzzle_hash, p2, (e3 + (e4 + (e5))) + post);
            assert(sdec_b32(s, p2.len() as int) == Some((receiver_puzzle_hash, p2.len() as int + e2.len())));
            lemma_regroup(p3, e3, e4 + (e5), post);
            lemma_dec_enc_u64(seconds, p3, (e4 + (e5)) + post);
            assert(sdec_u64(s, p3.len() as int) == Some((seconds, p3.len() as int + e3.len())));
            lemma_regroup(p4, e4, e5, post);
            lemma_dec_enc_u64(amount, p4, (e5) + post);
            assert(sdec_u64(s, p4.len() as int) == Some((amount, p4.len() as int + e4.len())));
            lemma_dec_enc_bool(hinted, p5, post);
            assert(sdec_bool(s, p5.len() as int) == Some((hinted, p5.len() as int + e5.len())));
        },
    }
}

pub fn enc_p2(out: &mut Vec<u8>, v: &P2Puzzle)
    requires
        v@.wf(),
    ensures
        final(out)@ == old(out)@ + senc_p2(v@),
{
    match v {
        P2Puzzle::ClawbackV2 { sender_puzzle_hash, receiver_puzzle_hash, seconds, amount, hinted } => {
            enc_u8(out, 0);
            enc_b32x(out, sender_puzzle_hash);
            enc_b32x(out, receiver_puzzle_hash);
            enc_u64(out, *seconds);
            enc_u64(out, *amount);
            enc_bool(out, *hinted);
            proof {
                let o = old(out)@;
                let e0 = senc_u8(0);
                let e1 = senc_b32(sender_puzzle_hash@);
                let e2 = senc_b32(receiver_puzzle_hash@);
                let e3 = senc_u64(*seconds);
                let e4 = senc_u64(*amount);
                let e5 = senc_bool(*hinted);
                lemma_assoc3(o + e0 + e1 + e2 + e3, e4, e5);
                lemma_assoc3(o + e0 + e1 + e2, e3, e4 + (e5));
                lemma_assoc3(o + e0 + e1, e2, e3 + (e4 + (e5)));
                lemma_assoc3(o + e0, e1, e2 + (e3 + (e4 + (e5))));
                lemma_assoc3(o, e0, e1 + (e2 + (e3 + (e4 + (e5)))));
            }
        },
    }
}

pub fn dec_p2(inp: &Vec<u8>, i: usize) -> (r: Option<(P2Puzzle, usize)>)
    ensures
        match r {
            Some((v, j)) => sdec_p2(inp@, i as int) == Some((v@, j as int)) && j <= inp@.len()
                && v@.wf(),
            None => sdec_p2(inp@, i as int) is None,
        },
{
    match dec_u8(inp, i) {
        Some((t, j)) => {
            if t == 0 {
                match dec_b32x(inp, j) {
                    Some((f0, i0)) =>                     match dec_b32x(inp, i0) {
                        Some((f1, i1)) =>                         match dec_u64(inp, i1) {
                            Some((f2, i2)) =>                             match dec_u64(inp, i2) {
                                Some((f3, i3)) =>                                 match dec_bool(inp, i3) {
                                    Some((f4, i4)) => Some((
                                    P2Puzzle::ClawbackV2 { sender_puzzle_hash: f0, receiver_puzzle_hash: f1, seconds: f2, amount: f3, hinted: f4 },
                                    i4,
                                    )),
                                    None => None,
                                }
                                None => None,
                            }
                            None => None,
                        }
                        None => None,
                    }
                    None => None,
                }
            } else
             {
                None
            }
        },
        None => None,
    }
}

pub open spec fn senc_opt_p2(o: Option<P2PuzzleV>) -> Seq<u8> {
    match o {
        None => seq![0u8],
        Some(x) => seq![1u8] + senc_p2(x),
    }
}

pub open spec fn sdec_opt_p2(s: Seq<u8>, i: int) -> Option<(Option<P2PuzzleV>, int)> {
    match sdec_u8(s, i) {
        Some((t, j)) => {
            if t == 0 {
                Some((None, j))
            } else if t == 1 {
                match sdec_p2(s, j) {
                    Some((x, k)) => Some((Some(x), k)),
                    None => None,
                }
            } else {
                None
            }
        },
        None => None,
    }
}

pub proof fn lemma_dec_enc_opt_p2(o: Option<P2PuzzleV>, pre: Seq<u8>, post: Seq<u8>)
    requires
        match o {
            Some(x) => x.wf(),
            None => true,
        },
    ensures
        sdec_opt_p2(pre + senc_opt_p2(o) + post, pre.len() as int) == Some(
            (o, pre.len() as int + senc_opt_p2(o).len()),
        ),
{
    let s = pre + senc_opt_p2(o) + post;
    let i = pre.len() as int;
    match o {
        None => {
            assert(senc_opt_p2(o) == senc_u8(0u8));
            lemma_dec_enc_u8(0u8, pre, post);
        },
        Some(x) => {
            let e = senc_p2(x);
            lemma_regroup(pre, seq![1u8], e, post);
            assert(seq![1u8] == senc_u8(1u8));
            lemma_dec_enc_u8(1u8, pre, e + post);
            lemma_dec_enc_p2(x, pre + seq![1u8], post);
            assert(senc_opt_p2(o).len() == 1 + e.len());
        },
    }
}

pub fn enc_opt_p2(out: &mut Vec<u8>, o: &Option<P2Puzzle>)
    requires
        match o {
            Some(x) => x@.wf(),
            None => true,
        },
    ensures
        final(out)@ == old(out)@ + senc_opt_p2(vopt_p2(*o)),
{
    match o {
        None => {
            enc_u8(out, 0);
            assert(final(out)@ =~= old(out)@ + senc_opt_p2(vopt_p2(*o)));
        },
        Some(x) => {
            enc_u8(out, 1);
            enc_p2(out, x);
            proof {
                lemma_assoc3(old(out)@, seq![1u8], senc_p2(x@));
            }
        },
    }
}

pub fn dec_opt_p2(inp: &Vec<u8>, i: usize) -> (r: Option<(Option<P2Puzzle>, usize)>)
    ensures
        match r {
            Some((v, j)) => sdec_opt_p2(inp@, i as int) == Some((vopt_p2(v), j as int))
                && j <= inp@.len() && match v {
                Some(x) => x@.wf(),
                None => true,
            },
            None => sdec_opt_p2(inp@, i as int) is None,
        },
{
    match dec_u8(inp, i) {
        Some((t, j)) => {
            if t == 0 {
                Some((None, j))
            } else if t == 1 {
                match dec_p2(inp, j) {
                    Some((x, k)) => Some((Some(x), k)),
                    None => None,
                }
            } else {
                None
            }
        },
        None => None,
    }
}

pub open spec fn senc_kind(v: CoinKindV) -> Seq<u8> {
    match v {
        CoinKindV::Unknown => senc_u8(0),
        CoinKindV::Reward => senc_u8(1),
        CoinKindV::Cat { asset_id, hidden_puzzle_hash, p2_puzzle_hash, lineage_proof } => senc_u8(2) + (senc_b32(asset_id) + (senc_opt_b32(hidden_puzzle_hash) + (senc_b32(p2_puzzle_hash) + (senc_opt_clp(lineage_proof))))),
        CoinKindV::Singleton { launcher_id, lineage_proof } => senc_u8(3) + (senc_b32(launcher_id) + (senc_slp(lineage_proof))),
        CoinKindV::Nft { launcher_id, metadata, metadata_updater_puzzle_hash, current_owner, royalty_puzzle_hash, royalty_basis_points, p2_puzzle_hash, lineage_proof } => senc_u8(4) + (senc_b32(launcher_id) + (senc_varbytes(metadata) + (senc_b32(metadata_updater_puzzle_hash) + (senc_opt_b32(current_owner) + (senc_b32(royalty_puzzle_hash) + (senc_u16(royalty_basis_points) + (senc_b32(p2_puzzle_hash) + (senc_slp(lineage_proof))))))))),
        CoinKindV::Did { launcher_id, recovery_list_hash, num_verifications_required, metadata, p2_puzzle_hash, lineage_proof } => senc_u8(5) + (senc_b32(launcher_id) + (senc_opt_b32(recovery_list_hash) + (senc_u64(num_verifications_required) + (senc_varbytes(metadata) + (senc_b32(p2_puzzle_hash) + (senc_slp(lineage_proof))))))),
    }
}

pub open spec fn sdec_kind(s: Seq<u8>, i: int) -> Option<(CoinKindV, int)> {
    match sdec_u8(s, i) {
        Some((t, j)) => {
            if t == 0 {
                Some((CoinKindV::Unknown, j))
            } else
            if t == 1 {
                Some((CoinKindV::Reward, j))
            } else
            if t == 2 {
                match sdec_b32(s, j) {
                    Some((f0, i0)) =>                     match sdec_opt_b32(s, i0) {
                        Some((f1, i1)) =>                         match sdec_b32(s, i1) {
                            Some((f2, i2)) =>                             match sdec_opt_clp(s, i2) {
                                Some((f3, i3)) => Some((
                                CoinKindV::Cat { asset_id: f0, hidden_puzzle_hash: f1, p2_puzzle_hash: f2, lineage_proof: f3 },
                                i3,
                                )),
                                None => None,
                            }
                            None => None,
                        }
                        None => None,
                    }
                    None => None,
                }
            } else
            if t == 3 {
                match sdec_b32(s, j) {
                    Some((f0, i0)) =>                     match sdec_slp(s, i0) {
                        Some((f1, i1)) => Some((
                        CoinKindV::Singleton { launcher_id: f0, lineage_proof: f1 },
                        i1,
                        )),
                        None => None,
                    }
                    None => None,
                }
            } else
            if t == 4 {
                match sdec_b32(s, j) {
                    Some((f0, i0)) =>                     match sdec_varbytes(s, i0) {
                        Some((f1, i1)) =>                         match sdec_b32(s, i1) {
                            Some((f2, i2)) =>                             match sdec_opt_b32(s, i2) {
                                Some((f3, i3)) =>                                 match sdec_b32(s, i3) {
                                    Some((f4, i4)) =>                                     match sdec_u16(s, i4) {
                                        Some((f5, i5)) =>                                         match sdec_b32(s, i5) {
                                            Some((f6, i6)) =>                                             match sdec_slp(s, i6) {
                                                Some((f7, i7)) => Some((
                                                CoinKindV::Nft { launcher_id: f0, metadata: f1, metadata_updater_puzzle_hash: f2, current_owner: f3, royalty_puzzle_hash: f4, royalty_basis_points: f5, p2_puzzle_hash: f6, lineage_proof: f7 },
                                                i7,
                                                )),
                                                None => None,
                                            }
                                            None => None,
                                        }
                                        None => None,
                                    }
                                    None => None,
                                }
                                None => None,
                            }
                            None => None,
                        }
                        None => None,
                    }
                    None => None,
                }
            } else
            if t == 5 {
                match sdec_b32(s, j) {
                    Some((f0, i0)) =>                     match sdec_opt_b32(s, i0) {
                        Some((f1, i1)) =>                         match sdec_u64(s, i1) {
                            Some((f2, i2)) =>                             match sdec_varbytes(s, i2) {
                                Some((f3, i3)) =>                                 match sdec_b32(s, i3) {
                                    Some((f4, i4)) =>                                     match sdec_slp(s, i4) {
                                        Some((f5, i5)) => Some((
                                        CoinKindV::Did { launcher_id: f0, recovery_list_hash: f1, num_verifications_required: f2, metadata: f3, p2_puzzle_hash: f4, lineage_proof: f5 },
                                        i5,
                                        )),
                                        None => None,
                                    }
                                    None => None,
                                }
                                None => None,
                            }
                            None => None,
                        }
                        None => None,
                    }
                    None => None,
                }
            } else {
                None
            }
        },
        None => None,
    }
}

#[verifier::rlimit(100)]
#[verifier::spinoff_prover]
proof fn lemma_dec_enc_kind_cat(v: CoinKindV, pre: Seq<u8>, post: Seq<u8>)
    requires
        v.wf(),
        v is Cat,
    ensures
        sdec_kind(pre + senc_kind(v) + post, pre.len() as int) == Some(
            (v, pre.len() as int + senc_kind(v).len()),
        ),
{
    let s = pre + senc_kind(v) + post;
    match v {
        CoinKindV::Cat { asset_id, hidden_puzzle_hash, p2_puzzle_hash, lineage_proof } => {
            let e0 = senc_u8(2);
            let e1 = senc_b32(asset_id);
            let e2 = senc_opt_b32(hidden_puzzle_hash);
            let e3 = senc_b32(p2_puzzle_hash);
            let e4 = senc_opt_clp(lineage_proof);
            let p0 = pre;
            let p1 = p0 + e0;
            let p2 = p1 + e1;
            let p3 = p2 + e2;
            let p4 = p3 + e3;
            lemma_regroup(p0, e0, e1 + (e2 + (e3 + (e4))), post);
            lemma_dec_enc_u8(2, p0, (e1 + (e2 + (e3 + (e4)))) + post);
            assert(sdec_u8(s, p0.len() as int) == Some((2u8, p0.len() as int + 1)));
            lemma_regroup(p1, e1, e2 + (e3 + (e4)), post);
            lemma_dec_enc_b32(asset_id, p1, (e2 + (e3 + (e4))) + post);
            assert(sdec_b32(s, p1.len() as int) == Some((asset_id, p1.len() as int + e1.len())));
            lemma_regroup(p2, e2, e3 + (e4), post);
            lemma_dec_enc_opt_b32(hidden_puzzle_hash, p2, (e3 + (e4)) + post);
            assert(sdec_opt_b32(s, p2.len() as int) == Some((hidden_puzzle_hash, p2.len() as int + e2.len())));
            lemma_regroup(p3, e3, e4, post);
            lemma_dec_enc_b32(p2_puzzle_hash, p3, (e4) + post);
            assert(sdec_b32(s, p3.len() as int) == Some((p2_puzzle_hash, p3.len() as int + e3.len())));
            lemma_dec_enc_opt_clp(lineage_proof, p4, post);
            assert(sdec_opt_clp(s, p4.len() as int) == Some((lineage_proof, p4.len() as int + e4.len())));
        },
        _ => {},
    }
}

#[verifier::rlimit(100)]
#[verifier::spinoff_prover]
proof fn lemma_dec_enc_kind_singleton(v: CoinKindV, pre: Seq<u8>, post: Seq<u8>)
    requires
        v.wf(),
        v is Singleton,
    ensures
        sdec_kind(pre + senc_kind(v) + post, pre.len() as int) == Some(
            (v, pre.len() as int + senc_kind(v).len()),
        ),
{
    let s = pre + senc_kind(v) + post;
    match v {
        CoinKindV::Singleton { launcher_id, lineage_proof } => {
            let e0 = senc_u8(3);
            let e1 = senc_b32(launcher_id);
            let e2 = senc_slp(lineage_proof);
            let p0 = pre;
            let p1 = p0 + e0;
            let p2 = p1 + e1;
            lemma_regroup(p0, e0, e1 + (e2), post);
            lemma_dec_enc_u8(3, p0, (e1 + (e2)) + post);
            assert(sdec_u8(s, p0.len() as int) == Some((3u8, p0.len() as int + 1)));
            lemma_regroup(p1, e1, e2, post);
            lemma_dec_enc_b32(launcher_id, p1, (e2) + post);
            assert(sdec_b32(s, p1.len() as int) == Some((launcher_id, p1.len() as int + e1.len())));
            lemma_dec_enc_slp(lineage_proof, p2, post);
            assert(sdec_slp(s, p2.len() as int) == Some((lineage_proof, p2.len() as int + e2.len())));
        },
        _ => {},
    }
}

#[verifier::rlimit(100)]
#[verifier::spinoff_prover]
proof fn lemma_dec_enc_kind_nft(v: CoinKindV, pre: Seq<u8>, post: Seq<u8>)
    requires
        v.wf(),
        v is Nft,
    ensures
        sdec_kind(pre + senc_kind(v) + post, pre.len() as int) == Some(
            (v, pre.len() as int + senc_kind(v).len()),
        ),
{
    let s = pre + senc_kind(v) + post;
    match v {
        CoinKindV::Nft { launcher_id, metadata, metadata_updater_puzzle_hash, current_owner, royalty_puzzle_hash, royalty_basis_points, p2_puzzle_hash, lineage_proof } => {
            let e0 = senc_u8(4);
            let e1 = senc_b32(launcher_id);
            let e2 = senc_varbytes(metadata);
            let e3 = senc_b32(metadata_updater_puzzle_hash);
            let e4 = senc_opt_b32(current_owner);
            let e5 = senc_b32(royalty_puzzle_hash);
            let e6 = senc_u16(royalty_basis_points);
            let e7 = senc_b32(p2_puzzle_hash);
            let e8 = senc_slp(lineage_proof);
            let p0 = pre;
            let p1 = p0 + e0;
            let p2 = p1 + e1;
            let p3 = p2 + e2;
            let p4 = p3 + e3;
            let p5 = p4 + e4;
            let p6 = p5 + e5;
            let p7 = p6 + e6;
            let p8 = p7 + e7;
            lemma_regroup(p0, e0, e1 + (e2 + (e3 + (e4 + (e5 + (e6 + (e7 + (e8))))))), post);
            lemma_dec_enc_u8(4, p0, (e1 + (e2 + (e3 + (e4 + (e5 + (e6 + (e7 + (e8)))))))) + post);
            assert(sdec_u8(s, p0.len() as int) == Some((4u8, p0.len() as int + 1)));
            lemma_regroup(p1, e1, e2 + (e3 + (e4 + (e5 + (e6 + (e7 + (e8)))))), post);
            lemma_dec_enc_b32(launcher_id, p1, (e2 + (e3 + (e4 + (e5 + (e6 + (e7 + (e8))))))) + post);
            assert(sdec_b32(s, p1.len() as int) == Some((launcher_id, p1.len() as int + e1.len())));
            lemma_regroup(p2, e2, e3 + (e4 + (e5 + (e6 + (e7 + (e8))))), post);
            lemma_dec_enc_varbytes(metadata, p2, (e3 + (e4 + (e5 + (e6 + (e7 + (e8)))))) + post);
            assert(sdec_varbytes(s, p2.len() as int) == Some((metadata, p2.len() as int + e2.len())));
            lemma_regroup(p3, e3, e4 + (e5 + (e6 + (e7 + (e8)))), post);
            lemma_dec_enc_b32(metadata_updater_puzzle_hash, p3, (e4 + (e5 + (e6 + (e7 + (e8))))) + post);
            assert(sdec_b32(s, p3.len() as int) == Some((metadata_updater_puzzle_hash, p3.len() as int + e3.len())));
            lemma_regroup(p4, e4, e5 + (e6 + (e7 + (e8))), post);
            lemma_dec_enc_opt_b32(current_owner, p4, (e5 + (e6 + (e7 + (e8)))) + post);
            assert(sdec_opt_b32(s, p4.len() as int) == Some((current_owner, p4.len() as int + e4.len())));
            lemma_regroup(p5, e5, e6 + (e7 + (e8)), post);
            lemma_dec_enc_b32(royalty_puzzle_hash, p5, (e6 + (e7 + (e8))) + post);
            assert(sdec_b32(s, p5.len() as int) == Some((royalty_puzzle_hash, p5.len() as int + e5.len())));
            lemma_regroup(p6, e6, e7 + (e8), post);
            lemma_dec_enc_u16(royalty_basis_points, p6, (e7 + (e8)) + post);
            assert(sdec_u16(s, p6.len() as int) == Some((royalty_basis_points, p6.len() as int + e6.len())));
            lemma_regroup(p7, e7, e8, post);
            lemma_dec_enc_b32(p2_puzzle_hash, p7, (e8) + post);
            assert(sdec_b32(s, p7.len() as int) == Some((p2_puzzle_hash, p7.len() as int + e7.len())));
            lemma_dec_enc_slp(lineage_proof, p8, post);
            assert(sdec_slp(s, p8.len() as int) == Some((lineage_proof, p8.len() as int + e8.len())));
        },
        _ => {},
    }
}

#[verifier::rlimit(100)]
#[verifier::spinoff_prover]
proof fn lemma_dec_enc_kind_did(v: CoinKindV, pre: Seq<u8>, post: Seq<u8>)
    requires
        v.wf(),
        v is Did,
    ensures
        sdec_kind(pre + senc_kind(v) + post, pre.len() as int) == Some(
            (v, pre.len() as int + senc_kind(v).len()),
        ),
{
    let s = pre + senc_kind(v) + post;
    match v {
        CoinKindV::Did { launcher_id, recovery_list_hash, num_verifications_required, metadata, p2_puzzle_hash, lineage_proof } => {
            let e0 = senc_u8(5);
            let e1 = senc_b32(launcher_id);
            let e2 = senc_opt_b32(recovery_list_hash);
            let e3 = senc_u64(num_verifications_required);
            let e4 = senc_varbytes(metadata);
            let e5 = senc_b32(p2_puzzle_hash);
            let e6 = senc_slp(lineage_proof);
            let p0 = pre;
            let p1 = p0 + e0;
            let p2 = p1 + e1;
            let p3 = p2 + e2;
            let p4 = p3 + e3;
            let p5 = p4 + e4;
            let p6 = p5 + e5;
            lemma_regroup(p0, e0, e1 + (e2 + (e3 + (e4 + (e5 + (e6))))), post);
            lemma_dec_enc_u8(5, p0, (e1 + (e2 + (e3 + (e4 + (e5 + (e6)))))) + post);
            assert(sdec_u8(s, p0.len() as int) == Some((5u8, p0.len() as int + 1)));
            lemma_regroup(p1, e1, e2 + (e3 + (e4 + (e5 + (e6)))), post);
            lemma_dec_enc_b32(launcher_id, p1, (e2 + (e3 + (e4 + (e5 + (e6))))) + post);
            assert(sdec_b32(s, p1.len() as int) == Some((launcher_id, p1.len() as int + e1.len())));
            lemma_regroup(p2, e2, e3 + (e4 + (e5 + (e6))), post);
            lemma_dec_enc_opt_b32(recovery_list_hash, p2, (e3 + (e4 + (e5 + (e6)))) + post);
            assert(sdec_opt_b32(s, p2.len() as int) == Some((recovery_list_hash, p2.len() as int + e2.len())));
            lemma_regroup(p3, e3, e4 + (e5 + (e6)), post);
            lemma_dec_enc_u64(num_verifications_required, p3, (e4 + (e5 + (e6))) + post);
            assert(sdec_u64(s, p3.len() as int) == Some((num_verifications_required, p3.len() as int + e3.len())));
            lemma_regroup(p4, e4, e5 + (e6), post);
            lemma_dec_enc_varbytes(metadata, p4, (e5 + (e6)) + post);
            assert(sdec_varbytes(s, p4.len() as int) == Some((metadata, p4.len() as int + e4.len())));
            lemma_regroup(p5, e5, e6, post);
            lemma_dec_enc_b32(p2_puzzle_hash, p5, (e6) + post);
            assert(sdec_b32(s, p5.len() as int) == Some((p2_puzzle_hash, p5.len() as int + e5.len())));
            lemma_dec_enc_slp(lineage_proof, p6, post);
            assert(sdec_slp(s, p6.len() as int) == Some((lineage_proof, p6.len() as int + e6.len())));
        },
        _ => {},
    }
}

pub proof fn lemma_dec_enc_kind(v: CoinKindV, pre: Seq<u8>, post: Seq<u8>)
    requires
        v.wf(),
    ensures
        sdec_kind(pre + senc_kind(v) + post, pre.len() as int) == Some(
            (v, pre.len() as int + senc_kind(v).len()),
        ),
{
    let s = pre + senc_kind(v) + post;
    match v {
        CoinKindV::Unknown => {
            assert(senc_kind(v) == senc_u8(0u8));
            lemma_dec_enc_u8(0u8, pre, post);
        },
        CoinKindV::Reward => {
            assert(senc_kind(v) == senc_u8(1u8));
            lemma_dec_enc_u8(1u8, pre, post);
        },
        CoinKindV::Cat { .. } => {
            lemma_dec_enc_kind_cat(v, pre, post);
        },
        CoinKindV::Singleton { .. } => {
            lemma_dec_enc_kind_singleton(v, pre, post);
        },
        CoinKindV::Nft { .. } => {
            lemma_dec_enc_kind_nft(v, pre, post);
        },
        CoinKindV::Did { .. } => {
            lemma_dec_enc_kind_did(v, pre, post);
        },
    }
}


pub fn enc_kind(out: &mut Vec<u8>, v: &CoinKind)
    requires
        v@.wf(),
    ensures
        final(out)@ == old(out)@ + senc_kind(v@),
{
    match v {
        CoinKind::Unknown => {
            enc_u8(out, 0);
        },
        CoinKind::Reward => {
            enc_u8(out, 1);
        },
        CoinKind::Cat { asset_id, hidden_puzzle_hash, p2_puzzle_hash, lineage_proof } => {
            enc_u8(out, 2);
            enc_b32x(out, asset_id);
            enc_opt_b32x(out, hidden_puzzle_hash);
            enc_b32x(out, p2_puzzle_hash);
            enc_opt_clp(out, lineage_proof);
            proof {
                let o = old(out)@;
                let e0 = senc_u8(2);
                let e1 = senc_b32(asset_id@);
                let e2 = senc_opt_b32(vopt_b32(*hidden_puzzle_hash));
                let e3 = senc_b32(p2_puzzle_hash@);
                let e4 = senc_opt_clp(vopt_clp(*lineage_proof));
                lemma_assoc3(o + e0 + e1 + e2, e3, e4);
                lemma_assoc3(o + e0 + e1, e2, e3 + (e4));
                lemma_assoc3(o + e0, e1, e2 + (e3 + (e4)));
                lemma_assoc3(o, e0, e1 + (e2 + (e3 + (e4))));
            }
        },
        CoinKind::Singleton { launcher_id, lineage_proof } => {
            enc_u8(out, 3);
            enc_b32x(out, launcher_id);
            enc_slp(out, lineage_proof);
            proof {
                let o = old(out)@;
                let e0 = senc_u8(3);
                let e1 = senc_b32(launcher_id@);
                let e2 = senc_slp(lineage_proof@);
                lemma_assoc3(o + e0, e1, e2);
                lemma_assoc3(o, e0, e1 + (e2));
            }
        },
        CoinKind::Nft { launcher_id, metadata, metadata_updater_puzzle_hash, current_owner, royalty_puzzle_hash, royalty_basis_points, p2_puzzle_hash, lineage_proof } => {
            enc_u8(out, 4);
            enc_b32x(out, launcher_id);
            enc_varbytes(out, metadata);
            enc_b32x(out, metadata_updater_puzzle_hash);
            enc_opt_b32x(out, current_owner);
            enc_b32x(out, royalty_puzzle_hash);
            enc_u16(out, *royalty_basis_points);
            enc_b32x(out, p2_puzzle_hash);
            enc_slp(out, lineage_proof);
            proof {
                let o = old(out)@;
                let e0 = senc_u8(4);
                let e1 = senc_b32(launcher_id@);
                let e2 = senc_varbytes(metadata@);
                let e3 = senc_b32(metadata_updater_puzzle_hash@);
                let e4 = senc_opt_b32(vopt_b32(*current_owner));
                let e5 = senc_b32(royalty_puzzle_hash@);
                let e6 = senc_u16(*royalty_basis_points);
                let e7 = senc_b32(p2_puzzle_hash@);
                let e8 = senc_slp(lineage_proof@);
                lemma_assoc3(o + e0 + e1 + e2 + e3 + e4 + e5 + e6, e7, e8);
                lemma_assoc3(o + e0 + e1 + e2 + e3 + e4 + e5, e6, e7 + (e8));
                lemma_assoc3(o + e0 + e1 + e2 + e3 + e4, e5, e6 + (e7 + (e8)));
                lemma_assoc3(o + e0 + e1 + e2 + e3, e4, e5 + (e6 + (e7 + (e8))));
                lemma_assoc3(o + e0 + e1 + e2, e3, e4 + (e5 + (e6 + (e7 + (e8)))));
                lemma_assoc3(o + e0 + e1, e2, e3 + (e4 + (e5 + (e6 + (e7 + (e8))))));
                lemma_assoc3(o + e0, e1, e2 + (e3 + (e4 + (e5 + (e6 + (e7 + (e8)))))));
                lemma_assoc3(o, e0, e1 + (e2 + (e3 + (e4 + (e5 + (e6 + (e7 + (e8))))))));
            }
        },
        CoinKind::Did { launcher_id, recovery_list_hash, num_verifications_required, metadata, p2_puzzle_hash, lineage_proof } => {
            enc_u8(out, 5);
            enc_b32x(out, launcher_id);
            enc_opt_b32x(out, recovery_list_hash);
            enc_u64(out, *num_verifications_required);
            enc_varbytes(out, metadata);
            enc_b32x(out, p2_puzzle_hash);
            enc_slp(out, lineage_proof);
            proof {
                let o = old(out)@;
                let e0 = senc_u8(5);
                let e1 = senc_b32(launcher_id@);
                let e2 = senc_opt_b32(vopt_b32(*recovery_list_hash));
                let e3 = senc_u64(*num_verifications_required);
                let e4 = senc_varbytes(metadata@);
                let e5 = senc_b32(p2_puzzle_hash@);
                let e6 = senc_slp(lineage_proof@);
                lemma_assoc3(o + e0 + e1 + e2 + e3 + e4, e5, e6);
                lemma_assoc3(o + e0 + e1 + e2 + e3, e4, e5 + (e6));
                lemma_assoc3(o + e0 + e1 + e2, e3, e4 + (e5 + (e6)));
                lemma_assoc3(o + e0 + e1, e2, e3 + (e4 + (e5 + (e6))));
                lemma_assoc3(o + e0, e1, e2 + (e3 + (e4 + (e5 + (e6)))));
                lemma_assoc3(o, e0, e1 + (e2 + (e3 + (e4 + (e5 + (e6))))));
            }
        },
    }
}

pub fn dec_kind(inp: &Vec<u8>, i: usize) -> (r: Option<(CoinKind, usize)>)
    ensures
        match r {
            Some((v, j)) => sdec_kind(inp@, i as int) == Some((v@, j as int)) && j <= inp@.len()
                && v@.wf(),
            None => sdec_kind(inp@, i as int) is None,
        },
{
    match dec_u8(inp, i) {
        Some((t, j)) => {
            if t == 0 {
                Some((CoinKind::Unknown, j))
            } else
            if t == 1 {
                Some((CoinKind::Reward, j))
            } else
            if t == 2 {
                match dec_b32x(inp, j) {
                    Some((f0, i0)) =>                     match dec_opt_b32x(inp, i0) {
                        Some((f1, i1)) =>                         match dec_b32x(inp, i1) {
                            Some((f2, i2)) =>                             match dec_opt_clp(inp, i2) {
                                Some((f3, i3)) => Some((
                                CoinKind::Cat { asset_id: f0, hidden_puzzle_hash: f1, p2_puzzle_hash: f2, lineage_proof: f3 },
                                i3,
                                )),
                                None => None,
                            }
                            None => None,
                        }
                        None => None,
                    }
                    None => None,
                }
            } else
            if t == 3 {
                match dec_b32x(inp, j) {
                    Some((f0, i0)) =>                     match dec_slp(inp, i0) {
                        Some((f1, i1)) => Some((
                        CoinKind::Singleton { launcher_id: f0, lineage_proof: f1 },
                        i1,
                        )),
                        None => None,
                    }
                    None => None,
                }
            } else
            if t == 4 {
                match dec_b32x(inp, j) {
                    Some((f0, i0)) =>                     match dec_varbytes(inp, i0) {
                        Some((f1, i1)) =>                         match dec_b32x(inp, i1) {
                            Some((f2, i2)) =>                             match dec_opt_b32x(inp, i2) {
                                Some((f3, i3)) =>                                 match dec_b32x(inp, i3) {
                                    Some((f4, i4)) =>                                     match dec_u16(inp, i4) {
                                        Some((f5, i5)) =>                                         match dec_b32x(inp, i5) {
                                            Some((f6, i6)) =>                                             match dec_slp(inp, i6) {
                                                Some((f7, i7)) => Some((
                                                CoinKind::Nft { launcher_id: f0, metadata: f1, metadata_updater_puzzle_hash: f2, current_owner: f3, royalty_puzzle_hash: f4, royalty_basis_points: f5, p2_puzzle_hash: f6, lineage_proof: f7 },
                                                i7,
                                                )),
                                                None => None,
                                            }
                                            None => None,
                                        }
                                        None => None,
                                    }
                                    None => None,
                                }
                                None => None,
                            }
                            None => None,
                        }
                        None => None,
                    }
                    None => None,
                }
            } else
            if t == 5 {
                match dec_b32x(inp, j) {
                    Some((f0, i0)) =>                     match dec_opt_b32x(inp, i0) {
                        Some((f1, i1)) =>                         match dec_u64(inp, i1) {
                            Some((f2, i2)) =>                             match dec_varbytes(inp, i2) {
                                Some((f3, i3)) =>                                 match dec_b32x(inp, i3) {
                                    Some((f4, i4)) =>                                     match dec_slp(inp, i4) {
                                        Some((f5, i5)) => Some((
                                        CoinKind::Did { launcher_id: f0, recovery_list_hash: f1, num_verifications_required: f2, metadata: f3, p2_puzzle_hash: f4, lineage_proof: f5 },
                                        i5,
                                        )),
                                        None => None,
                                    }
                                    None => None,
                                }
                                None => None,
                            }
                            None => None,
                        }
                        None => None,
                    }
                    None => None,
                }
            } else
             {
                None
            }
        },
        None => None,
    }
}

#[verifier::opaque]
pub open spec fn senc_block_record(v: BlockRecordV) -> Seq<u8> {
    senc_u32(v.height) + (senc_b32(v.header_hash) + (senc_u128(v.weight) + (senc_u128(v.total_iters) + (senc_b32(v.farmer_puzzle_hash) + (senc_opt_b32(v.pool_puzzle_hash) + (senc_b32(v.prev_block_hash) + (senc_opt_ti(v.transaction_info))))))))
}

pub open spec fn sdec_block_record(s: Seq<u8>, i: int) -> Option<(BlockRecordV, int)> {
    match sdec_u32(s, i) {
        Some((f0, i0)) =>         match sdec_b32(s, i0) {
            Some((f1, i1)) =>             match sdec_u128(s, i1) {
                Some((f2, i2)) =>                 match sdec_u128(s, i2) {
                    Some((f3, i3)) =>                     match sdec_b32(s, i3) {
                        Some((f4, i4)) =>                         match sdec_opt_b32(s, i4) {
                            Some((f5, i5)) =>                             match sdec_b32(s, i5) {
                                Some((f6, i6)) =>                                 match sdec_opt_ti(s, i6) {
                                    Some((f7, i7)) => Some((
                                    BlockRecordV { height: f0, header_hash: f1, weight: f2, total_iters: f3, farmer_puzzle_hash: f4, pool_puzzle_hash: f5, prev_block_hash: f6, transaction_info: f7 },
                                    i7,
                                    )),
                                    None => None,
                                }
                                None => None,
                            }
                            None => None,
                        }
                        None => None,
                    }
                    None => None,
                }
                None => None,
            }
            None => None,
        }
        None => None,
    }
}

#[verifier::rlimit(100)]
#[verifier::spinoff_prover]
pub proof fn lemma_dec_enc_block_record(v: BlockRecordV, pre: Seq<u8>, post: Seq<u8>)
    requires
        v.wf(),
    ensures
        sdec_block_record(pre + senc_block_record(v) + post, pre.len() as int) == Some(
            (v, pre.len() as int + senc_block_record(v).len()),
        ),
{
    reveal(senc_block_record);
    let e0 = senc_u32(v.height);
    let e1 = senc_b32(v.header_hash);
    let e2 = senc_u128(v.weight);
    let e3 = senc_u128(v.total_iters);
    let e4 = senc_b32(v.farmer_puzzle_hash);
    let e5 = senc_opt_b32(v.pool_puzzle_hash);
    let e6 = senc_b32(v.prev_block_hash);
    let e7 = senc_opt_ti(v.transaction_info);
    let s = pre + senc_block_record(v) + post;
    let p0 = pre;
    let p1 = p0 + e0;
    let p2 = p1 + e1;
    let p3 = p2 + e2;
    let p4 = p3 + e3;
    let p5 = p4 + e4;
    let p6 = p5 + e5;
    let p7 = p6 + e6;
    lemma_regroup(p0, e0, e1 + (e2 + (e3 + (e4 + (e5 + (e6 + (e7)))))), post);
    lemma_dec_enc_u32(v.height, p0, (e1 + (e2 + (e3 + (e4 + (e5 + (e6 + (e7))))))) + post);
    assert(sdec_u32(s, p0.len() as int) == Some((v.height, p0.len() as int + e0.len())));
    lemma_regroup(p1, e1, e2 + (e3 + (e4 + (e5 + (e6 + (e7))))), post);
    lemma_dec_enc_b32(v.header_hash, p1, (e2 + (e3 + (e4 + (e5 + (e6 + (e7)))))) + post);
    assert(sdec_b32(s, p1.len() as int) == Some((v.header_hash, p1.len() as int + e1.len())));
    lemma_regroup(p2, e2, e3 + (e4 + (e5 + (e6 + (e7)))), post);
    lemma_dec_enc_u128(v.weight, p2, (e3 + (e4 + (e5 + (e6 + (e7))))) + post);
    assert(sdec_u128(s, p2.len() as int) == Some((v.weight, p2.len() as int + e2.len())));
    lemma_regroup(p3, e3, e4 + (e5 + (e6 + (e7))), post);
    lemma_dec_enc_u128(v.total_iters, p3, (e4 + (e5 + (e6 + (e7)))) + post);
    assert(sdec_u128(s, p3.len() as int) == Some((v.total_iters, p3.len() as int + e3.len())));
    lemma_regroup(p4, e4, e5 + (e6 + (e7)), post);
    lemma_dec_enc_b32(v.farmer_puzzle_hash, p4, (e5 + (e6 + (e7))) + post);
    assert(sdec_b32(s, p4.len() as int) == Some((v.farmer_puzzle_hash, p4.len() as int + e4.len())));
    lemma_regroup(p5, e5, e6 + (e7), post);
    lemma_dec_enc_opt_b32(v.pool_puzzle_hash, p5, (e6 + (e7)) + post);
    assert(sdec_opt_b32(s, p5.len() as int) == Some((v.pool_puzzle_hash, p5.len() as int + e5.len())));
    lemma_regroup(p6, e6, e7, post);
    lemma_dec_enc_b32(v.prev_block_hash, p6, (e7) + post);
    assert(sdec_b32(s, p6.len() as int) == Some((v.prev_block_hash, p6.len() as int + e6.len())));
    lemma_dec_enc_opt_ti(v.transaction_info, p7, post);
    assert(sdec_opt_ti(s, p7.len() as int) == Some((v.transaction_info, p7.len() as int + e7.len())));
    assert((BlockRecordV { height: v.height, header_hash: v.header_hash, weight: v.weight, total_iters: v.total_iters, farmer_puzzle_hash: v.farmer_puzzle_hash, pool_puzzle_hash: v.pool_puzzle_hash, prev_block_hash: v.prev_block_hash, transaction_info: v.transaction_info }) =~= v);
}

pub fn enc_block_record(out: &mut Vec<u8>, v: &BlockRecord)
    requires
        v.wf(),
    ensures
        final(out)@ == old(out)@ + senc_block_record(v@),
{
    proof {
        reveal(senc_block_record);
    }
    enc_u32(out, v.height);
    enc_b32x(out, &v.header_hash);
    enc_u128(out, v.weight);
    enc_u128(out, v.total_iters);
    enc_b32x(out, &v.farmer_puzzle_hash);
    enc_opt_b32x(out, &v.pool_puzzle_hash);
    enc_b32x(out, &v.prev_block_hash);
    enc_opt_ti(out, &v.transaction_info);
    proof {
        let o = old(out)@;
        let e0 = senc_u32(v.height);
        let e1 = senc_b32(v.header_hash@);
        let e2 = senc_u128(v.weight);
        let e3 = senc_u128(v.total_iters);
        let e4 = senc_b32(v.farmer_puzzle_hash@);
        let e5 = senc_opt_b32(vopt_b32(v.pool_puzzle_hash));
        let e6 = senc_b32(v.prev_block_hash@);
        let e7 = senc_opt_ti(vopt_ti(v.transaction_info));
        lemma_assoc3(o + e0 + e1 + e2 + e3 + e4 + e5, e6, e7);
        lemma_assoc3(o + e0 + e1 + e2 + e3 + e4, e5, e6 + (e7));
        lemma_assoc3(o + e0 + e1 + e2 + e3, e4, e5 + (e6 + (e7)));
        lemma_assoc3(o + e0 + e1 + e2, e3, e4 + (e5 + (e6 + (e7))));
        lemma_assoc3(o + e0 + e1, e2, e3 + (e4 + (e5 + (e6 + (e7)))));
        lemma_assoc3(o + e0, e1, e2 + (e3 + (e4 + (e5 + (e6 + (e7))))));
        lemma_assoc3(o, e0, e1 + (e2 + (e3 + (e4 + (e5 + (e6 + (e7)))))));
    }
}

pub fn dec_block_record(inp: &Vec<u8>, i: usize) -> (r: Option<(BlockRecord, usize)>)
    ensures
        match r {
            Some((v, j)) => sdec_block_record(inp@, i as int) == Some((v@, j as int)) && j <= inp@.len()
                && v@.wf(),
            None => sdec_block_record(inp@, i as int) is None,
        },
{
    match dec_u32(inp, i) {
        Some((f0, i0)) =>         match dec_b32x(inp, i0) {
            Some((f1, i1)) =>             match dec_u128(inp, i1) {
                Some((f2, i2)) =>                 match dec_u128(inp, i2) {
                    Some((f3, i3)) =>                     match dec_b32x(inp, i3) {
                        Some((f4, i4)) =>                         match dec_opt_b32x(inp, i4) {
                            Some((f5, i5)) =>                             match dec_b32x(inp, i5) {
                                Some((f6, i6)) =>                                 match dec_opt_ti(inp, i6) {
                                    Some((f7, i7)) => Some((
                                    BlockRecord { height: f0, header_hash: f1, weight: f2, total_iters: f3, farmer_puzzle_hash: f4, pool_puzzle_hash: f5, prev_block_hash: f6, transaction_info: f7 },
                                    i7,
                                    )),
                                    None => None,
                                }
                                None => None,
                            }
                            None => None,
                        }
                        None => None,
                    }
                    None => None,
                }
                None => None,
            }
            None => None,
        }
        None => None,
    }
}

#[verifier::opaque]
pub open spec fn senc_coin_record(v: CoinRecordV) -> Seq<u8> {
    senc_coin(v.coin) + (senc_u32(v.created_height) + (senc_opt_u32(v.spent_height) + (senc_opt_b32(v.hint) + (senc_opt_varbytes(v.memos) + (senc_kind(v.kind) + (senc_opt_p2(v.p2_puzzle)))))))
}

pub open spec fn sdec_coin_record(s: Seq<u8>, i: int) -> Option<(CoinRecordV, int)> {
    match sdec_coin(s, i) {
        Some((f0, i0)) =>         match sdec_u32(s, i0) {
            Some((f1, i1)) =>             match sdec_opt_u32(s, i1) {
                Some((f2, i2)) =>                 match sdec_opt_b32(s, i2) {
                    Some((f3, i3)) =>                     match sdec_opt_varbytes(s, i3) {
                        Some((f4, i4)) =>                         match sdec_kind(s, i4) {
                            Some((f5, i5)) =>                             match sdec_opt_p2(s, i5) {
                                Some((f6, i6)) => Some((
                                CoinRecordV { coin: f0, created_height: f1, spent_height: f2, hint: f3, memos: f4, kind: f5, p2_puzzle: f6 },
                                i6,
                                )),
                                None => None,
                            }
                            None => None,
                        }
                        None => None,
                    }
                    None => None,
                }
                None => None,
            }
            None => None,
        }
        None => None,
    }
}

#[verifier::rlimit(100)]
#[verifier::spinoff_prover]
pub proof fn lemma_dec_enc_coin_record(v: CoinRecordV, pre: Seq<u8>, post: Seq<u8>)
    requires
        v.wf(),
    ensures
        sdec_coin_record(pre + senc_coin_record(v) + post, pre.len() as int) == Some(
            (v, pre.len() as int + senc_coin_record(v).len()),
        ),
{
    reveal(senc_coin_record);
    let e0 = senc_coin(v.coin);
    let e1 = senc_u32(v.created_height);
    let e2 = senc_opt_u32(v.spent_height);
    let e3 = senc_opt_b32(v.hint);
    let e4 = senc_opt_varbytes(v.memos);
    let e5 = senc_kind(v.kind);
    let e6 = senc_opt_p2(v.p2_puzzle);
    let s = pre + senc_coin_record(v) + post;
    let p0 = pre;
    let p1 = p0 + e0;
    let p2 = p1 + e1;
    let p3 = p2 + e2;
    let p4 = p3 + e3;
    let p5 = p4 + e4;
    let p6 = p5 + e5;
    lemma_regroup(p0, e0, e1 + (e2 + (e3 + (e4 + (e5 + (e6))))), post);
    lemma_dec_enc_coin(v.coin, p0, (e1 + (e2 + (e3 + (e4 + (e5 + (e6)))))) + post);
    assert(sdec_coin(s, p0.len() as int) == Some((v.coin, p0.len() as int + e0.len())));
    lemma_regroup(p1, e1, e2 + (e3 + (e4 + (e5 + (e6)))), post);
    lemma_dec_enc_u32(v.created_height, p1, (e2 + (e3 + (e4 + (e5 + (e6))))) + post);
    assert(sdec_u32(s, p1.len() as int) == Some((v.created_height, p1.len() as int + e1.len())));
    lemma_regroup(p2, e2, e3 + (e4 + (e5 + (e6))), post);
    lemma_dec_enc_opt_u32(v.spent_height, p2, (e3 + (e4 + (e5 + (e6)))) + post);
    assert(sdec_opt_u32(s, p2.len() as int) == Some((v.spent_height, p2.len() as int + e2.len())));
    lemma_regroup(p3, e3, e4 + (e5 + (e6)), post);
    lemma_dec_enc_opt_b32(v.hint, p3, (e4 + (e5 + (e6))) + post);
    assert(sdec_opt_b32(s, p3.len() as int) == Some((v.hint, p3.len() as int + e3.len())));
    lemma_regroup(p4, e4, e5 + (e6), post);
    lemma_dec_enc_opt_varbytes(v.memos, p4, (e5 + (e6)) + post);
    assert(sdec_opt_varbytes(s, p4.len() as int) == Some((v.memos, p4.len() as int + e4.len())));
    lemma_regroup(p5, e5, e6, post);
    lemma_dec_enc_kind(v.kind, p5, (e6) + post);
    assert(sdec_kind(s, p5.len() as int) == Some((v.kind, p5.len() as int + e5.len())));
    lemma_dec_enc_opt_p2(v.p2_puzzle, p6, post);
    assert(sdec_opt_p2(s, p6.len() as int) == Some((v.p2_puzzle, p6.len() as int + e6.len())));
    assert((CoinRecordV { coin: v.coin, created_height: v.created_height, spent_height: v.spent_height, hint: v.hint, memos: v.memos, kind: v.kind, p2_puzzle: v.p2_puzzle }) =~= v);
}

pub fn enc_coin_record(out: &mut Vec<u8>, v: &CoinRecord)
    requires
        v.wf(),
    ensures
        final(out)@ == old(out)@ + senc_coin_record(v@),
{
    proof {
        reveal(senc_coin_record);
    }
    enc_coin(out, &v.coin);
    enc_u32(out, v.created_height);
    enc_opt_u32(out, &v.spent_height);
    enc_opt_b32x(out, &v.hint);
    enc_opt_bytes(out, &v.memos);
    enc_kind(out, &v.kind);
    enc_opt_p2(out, &v.p2_puzzle);
    proof {
        let o = old(out)@;
        let e0 = senc_coin(v.coin@);
        let e1 = senc_u32(v.created_height);
        let e2 = senc_opt_u32(v.spent_height);
        let e3 = senc_opt_b32(vopt_b32(v.hint));
        let e4 = senc_opt_varbytes(vopt_bytes(v.memos));
        let e5 = senc_kind(v.kind@);
        let e6 = senc_opt_p2(vopt_p2(v.p2_puzzle));
        lemma_assoc3(o + e0 + e1 + e2 + e3 + e4, e5, e6);
        lemma_assoc3(o + e0 + e1 + e2 + e3, e4, e5 + (e6));
        lemma_assoc3(o + e0 + e1 + e2, e3, e4 + (e5 + (e6)));
        lemma_assoc3(o + e0 + e1, e2, e3 + (e4 + (e5 + (e6))));
        lemma_assoc3(o + e0, e1, e2 + (e3 + (e4 + (e5 + (e6)))));
        lemma_assoc3(o, e0, e1 + (e2 + (e3 + (e4 + (e5 + (e6))))));
    }
}

pub fn dec_coin_record(inp: &Vec<u8>, i: usize) -> (r: Option<(CoinRecord, usize)>)
    ensures
        match r {
            Some((v, j)) => sdec_coin_record(inp@, i as int) == Some((v@, j as int)) && j <= inp@.len()
                && v@.wf(),
            None => sdec_coin_record(inp@, i as int) is None,
        },
{
    match dec_coin(inp, i) {
        Some((f0, i0)) =>         match dec_u32(inp, i0) {
            Some((f1, i1)) =>             match dec_opt_u32(inp, i1) {
                Some((f2, i2)) =>                 match dec_opt_b32x(inp, i2) {
                    Some((f3, i3)) =>                     match dec_opt_bytes(inp, i3) {
                        Some((f4, i4)) =>                         match dec_kind(inp, i4) {
                            Some((f5, i5)) =>                             match dec_opt_p2(inp, i5) {
                                Some((f6, i6)) => Some((
                                CoinRecord { coin: f0, created_height: f1, spent_height: f2, hint: f3, memos: f4, kind: f5, p2_puzzle: f6 },
                                i6,
                                )),
                                None => None,
                            }
                            None => None,
                        }
                        None => None,
                    }
                    None => None,
                }
                None => None,
            }
            None => None,
        }
        None => None,
    }
}

#[verifier::opaque]
pub open spec fn senc_coin_spend_record(v: CoinSpendRecordV) -> Seq<u8> {
    senc_coin(v.coin) + (senc_varbytes(v.puzzle_reveal) + (senc_varbytes(v.solution) + (senc_u32(v.spent_height))))
}

pub open spec fn sdec_coin_spend_record(s: Seq<u8>, i: int) -> Option<(CoinSpendRecordV, int)> {
    match sdec_coin(s, i) {
        Some((f0, i0)) =>         match sdec_varbytes(s, i0) {
            Some((f1, i1)) =>             match sdec_varbytes(s, i1) {
                Some((f2, i2)) =>                 match sdec_u32(s, i2) {
                    Some((f3, i3)) => Some((
                    CoinSpendRecordV { coin: f0, puzzle_reveal: f1, solution: f2, spent_height: f3 },
                    i3,
                    )),
                    None => None,
                }
                None => None,
            }
            None => None,
        }
        None => None,
    }
}

#[verifier::rlimit(100)]
#[verifier::spinoff_prover]
pub proof fn lemma_dec_enc_coin_spend_record(v: CoinSpendRecordV, pre: Seq<u8>, post: Seq<u8>)
    requires
        v.wf(),
    ensures
        sdec_coin_spend_record(pre + senc_coin_spend_record(v) + post, pre.len() as int) == Some(
            (v, pre.len() as int + senc_coin_spend_record(v).len()),
        ),
{
    reveal(senc_coin_spend_record);
    let e0 = senc_coin(v.coin);
    let e1 = senc_varbytes(v.puzzle_reveal);
    let e2 = senc_varbytes(v.solution);
    let e3 = senc_u32(v.spent_height);
    let s = pre + senc_coin_spend_record(v) + post;
    let p0 = pre;
    let p1 = p0 + e0;
    let p2 = p1 + e1;
    let p3 = p2 + e2;
    lemma_regroup(p0, e0, e1 + (e2 + (e3)), post);
    lemma_dec_enc_coin(v.coin, p0, (e1 + (e2 + (e3))) + post);
    assert(sdec_coin(s, p0.len() as int) == Some((v.coin, p0.len() as int + e0.len())));
    lemma_regroup(p1, e1, e2 + (e3), post);
    lemma_dec_enc_varbytes(v.puzzle_reveal, p1, (e2 + (e3)) + post);
    assert(sdec_varbytes(s, p1.len() as int) == Some((v.puzzle_reveal, p1.len() as int + e1.len())));
    lemma_regroup(p2, e2, e3, post);
    lemma_dec_enc_varbytes(v.solution, p2, (e3) + post);
    assert(sdec_varbytes(s, p2.len() as int) == Some((v.solution, p2.len() as int + e2.len())));
    lemma_dec_enc_u32(v.spent_height, p3, post);
    assert(sdec_u32(s, p3.len() as int) == Some((v.spent_height, p3.len() as int + e3.len())));
    assert((CoinSpendRecordV { coin: v.coin, puzzle_reveal: v.puzzle_reveal, solution: v.solution, spent_height: v.spent_height }) =~= v);
}

pub fn enc_coin_spend_record(out: &mut Vec<u8>, v: &CoinSpendRecord)
    requires
        v.wf(),
    ensures
        final(out)@ == old(out)@ + senc_coin_spend_record(v@),
{
    proof {
        reveal(senc_coin_spend_record);
    }
    enc_coin(out, &v.coin);
    enc_varbytes(out, &v.puzzle_reveal);
    enc_varbytes(out, &v.solution);
    enc_u32(out, v.spent_height);
    proof {
        let o = old(out)@;
        let e0 = senc_coin(v.coin@);
        let e1 = senc_varbytes(v.puzzle_reveal@);
        let e2 = senc_varbytes(v.solution@);
        let e3 = senc_u32(v.spent_height);
        lemma_assoc3(o + e0 + e1, e2, e3);
        lemma_assoc3(o + e0, e1, e2 + (e3));
        lemma_assoc3(o, e0, e1 + (e2 + (e3)));
    }
}

pub fn dec_coin_spend_record(inp: &Vec<u8>, i: usize) -> (r: Option<(CoinSpendRecord, usize)>)
    ensures
        match r {
            Some((v, j)) => sdec_coin_spend_record(inp@, i as int) == Some((v@, j as int)) && j <= inp@.len()
                && v@.wf(),
            None => sdec_coin_spend_record(inp@, i as int) is None,
        },
{
    match dec_coin(inp, i) {
        Some((f0, i0)) =>         match dec_varbytes(inp, i0) {
            Some((f1, i1)) =>             match dec_varbytes(inp, i1) {
                Some((f2, i2)) =>                 match dec_u32(inp, i2) {
                    Some((f3, i3)) => Some((
                    CoinSpendRecord { coin: f0, puzzle_reveal: f1, solution: f2, spent_height: f3 },
                    i3,
                    )),
                    None => None,
                }
                None => None,
            }
            None => None,
        }
        None => None,
    }
}



// ---------------------------------------------------------------------------
// Whole-value entry points: a stored value is one record and nothing more.
// ---------------------------------------------------------------------------

#[verifier::opaque]
pub open spec fn sdecode_block_record(s: Seq<u8>) -> Option<BlockRecordV> {
    match sdec_block_record(s, 0) {
        Some((v, j)) => if j == s.len() {
            Some(v)
        } else {
            None
        },
        None => None,
    }
}

#[verifier::opaque]
pub open spec fn sdecode_coin_record(s: Seq<u8>) -> Option<CoinRecordV> {
    match sdec_coin_record(s, 0) {
        Some((v, j)) => if j == s.len() {
            Some(v)
        } else {
            None
        },
        None => None,
    }
}

#[verifier::opaque]
pub open spec fn sdecode_coin_spend_record(s: Seq<u8>) -> Option<CoinSpendRecordV> {
    match sdec_coin_spend_record(s, 0) {
        Some((v, j)) => if j == s.len() {
            Some(v)
        } else {
            None
        },
        None => None,
    }
}

pub fn encode_block_record(v: &BlockRecord) -> (r: Vec<u8>)
    requires
        v.wf(),
    ensures
        r@ == senc_block_record(v@),
{
    let mut out: Vec<u8> = Vec::new();
    enc_block_record(&mut out, v);
    assert(out@ =~= senc_block_record(v@));
    out
}

pub fn encode_coin_record(v: &CoinRecord) -> (r: Vec<u8>)
    requires
        v.wf(),
    ensures
        r@ == senc_coin_record(v@),
{
    let mut out: Vec<u8> = Vec::new();
    enc_coin_record(&mut out, v);
    assert(out@ =~= senc_coin_record(v@));
    out
}

pub fn encode_coin_spend_record(v: &CoinSpendRecord) -> (r: Vec<u8>)
    requires
        v.wf(),
    ensures
        r@ == senc_coin_spend_record(v@),
{
    let mut out: Vec<u8> = Vec::new();
    enc_coin_spend_record(&mut out, v);
    assert(out@ =~= senc_coin_spend_record(v@));
    out
}

pub fn decode_block_record(bytes: &Vec<u8>) -> (r: Option<BlockRecord>)
    ensures
        match r {
            Some(v) => sdecode_block_record(bytes@) == Some(v@) && v.wf(),
            None => sdecode_block_record(bytes@) is None,
        },
{
    proof {
        reveal(sdecode_block_record);
    }
    match dec_block_record(bytes, 0) {
        Some((v, j)) => {
            if j == bytes.len() {
                Some(v)
            } else {
                None
            }
        },
        None => None,
    }
}

pub fn decode_coin_record(bytes: &Vec<u8>) -> (r: Option<CoinRecord>)
    ensures
        match r {
            Some(v) => sdecode_coin_record(bytes@) == Some(v@) && v.wf(),
            None => sdecode_coin_record(bytes@) is None,
        },
{
    proof {
        reveal(sdecode_coin_record);
    }
    match dec_coin_record(bytes, 0) {
        Some((v, j)) => {
            if j == bytes.len() {
                Some(v)
            } else {
                None
            }
        },
        None => None,
    }
}

pub fn decode_coin_spend_record(bytes: &Vec<u8>) -> (r: Option<CoinSpendRecord>)
    ensures
        match r {
            Some(v) => sdecode_coin_spend_record(bytes@) == Some(v@) && v.wf(),
            None => sdecode_coin_spend_record(bytes@) is None,
        },
{
    proof {
        reveal(sdecode_coin_spend_record);
    }
    match dec_coin_spend_record(bytes, 0) {
        Some((v, j)) => {
            if j == bytes.len() {
                Some(v)
            } else {
                None
            }
        },
        None => None,
    }
}

// ---------------------------------------------------------------------------
// Round-trip laws: decoding an encoding yields the encoded record exactly.
// The law covers every variant of the classification and escrow tags, since
// it is quantified over every well-formed record.
// ---------------------------------------------------------------------------

proof fn lemma_pad_empty(s: Seq<u8>)
    ensures
        Seq::<u8>::empty() + s + Seq::<u8>::empty() == s,
{
    assert(Seq::<u8>::empty() + s + Seq::<u8>::empty() =~= s);
}

/// Round trip for block records: `decode(encode(r)) = r`.
pub proof fn lemma_round_trip_block_record(v: BlockRecordV)
    requires
        v.wf(),
    ensures
        sdecode_block_record(senc_block_record(v)) == Some(v),
{
    reveal(sdecode_block_record);
    lemma_pad_empty(senc_block_record(v));
    lemma_dec_enc_block_record(v, Seq::<u8>::empty(), Seq::<u8>::empty());
}

/// Round trip for coin records, for every `CoinKind` and `P2Puzzle` variant.
pub proof fn lemma_round_trip_coin_record(v: CoinRecordV)
    requires
        v.wf(),
    ensures
        sdecode_coin_record(senc_coin_record(v)) == Some(v),
{
    reveal(sdecode_coin_record);
    lemma_pad_empty(senc_coin_record(v));
    lemma_dec_enc_coin_record(v, Seq::<u8>::empty(), Seq::<u8>::empty());
}

/// Round trip for coin-spend records.
pub proof fn lemma_round_trip_coin_spend_record(v: CoinSpendRecordV)
    requires
        v.wf(),
    ensures
        sdecode_coin_spend_record(senc_coin_spend_record(v)) == Some(v),
{
    reveal(sdecode_coin_spend_record);
    lemma_pad_empty(senc_coin_spend_record(v));
    lemma_dec_enc_coin_spend_record(v, Seq::<u8>::empty(), Seq::<u8>::empty());
}

} // verus!
