//! Field codecs: stateless encode/decode strategies between plain domain
//! values and their archived byte form.
//!
//! Every codec is exact: encoding then decoding returns the value
//! unchanged, and decoding then encoding returns the very same bytes, so
//! an archive has exactly one byte form for each snapshot value.  Fixed
//! width codecs (identifiers, bit-flag sets, byte tags, image hashes and
//! optionals of these) occupy a constant number of bytes regardless of
//! the value; that is what makes in-place patching of such fields safe.

use vstd::bytes::*;
use vstd::prelude::*;
use vstd::slice::{slice_index_get, slice_subrange, slice_to_vec};

verus! {

/// `s` with the bytes from `off` on replaced by `p`, length unchanged.
pub open spec fn splice(s: Seq<u8>, off: int, p: Seq<u8>) -> Seq<u8>
    recommends
        0 <= off,
        off + p.len() <= s.len(),
{
    s.take(off) + p + s.skip(off + p.len())
}

// ------------------------------------------------------------------
// write-at-offset primitive
// ------------------------------------------------------------------

/// Overwrites `buf[off..off + p.len()]` with `p`, leaving every other
/// byte and the total length unchanged.
pub fn write_bytes_at(buf: &mut Vec<u8>, off: usize, p: &[u8])
    requires
        off + p@.len() <= old(buf)@.len(),
    ensures
        final(buf)@ == splice(old(buf)@, off as int, p@),
{
    let n: usize = p.len();
    let l: usize = buf.len();
    let mut i: usize = 0;
    while i < n
        invariant
            n == p@.len(),
            i <= n,
            off + n <= l,
            l == buf@.len(),
            buf@.len() == old(buf)@.len(),
            forall|j: int| 0 <= j < off ==> buf@[j] == old(buf)@[j],
            forall|j: int| 0 <= j < i ==> buf@[off + j] == p@[j],
            forall|j: int| off + i <= j < buf@.len() ==> buf@[j] == old(buf)@[j],
        decreases n - i,
    {
        let b: u8 = *slice_index_get(p, i);
        buf[off + i] = b;
        i = i + 1;
    }
    proof {
        assert(buf@ =~= splice(old(buf)@, off as int, p@));
    }
}

/// Returns whether the bytes of `buf` from `off` to the end equal `p`.
pub fn tail_eq(buf: &Vec<u8>, off: usize, p: &[u8]) -> (r: bool)
    requires
        off <= buf@.len(),
    ensures
        r <==> buf@.skip(off as int) == p@,
{
    let l: usize = buf.len();
    let n: usize = l - off;
    if n != p.len() {
        proof {
            assert(buf@.skip(off as int).len() == n);
        }
        return false;
    }
    let mut i: usize = 0;
    while i < n
        invariant
            l == buf@.len(),
            off + n == buf@.len(),
            n == p@.len(),
            i <= n,
            forall|j: int| 0 <= j < i ==> buf@[off + j] == p@[j],
        decreases n - i,
    {
        if buf[off + i] != *slice_index_get(p, i) {
            proof {
                assert(buf@.skip(off as int)[i as int] != p@[i as int]);
            }
            return false;
        }
        i = i + 1;
    }
    proof {
        assert(buf@.skip(off as int) =~= p@);
    }
    true
}

/// An owned copy of a byte string.
pub fn clone_bytes(v: &Vec<u8>) -> (r: Vec<u8>)
    ensures
        r@ == v@,
{
    slice_to_vec(v.as_slice())
}

// ------------------------------------------------------------------
// identifier / bit-flag codec: u64, little endian, 8 bytes
// ------------------------------------------------------------------

/// Appends the 8-byte encoding of `x`.
pub fn put_u64(buf: &mut Vec<u8>, x: u64)
    ensures
        final(buf)@ == old(buf)@ + spec_u64_to_le_bytes(x),
{
    let mut bytes = u64_to_le_bytes(x);
    buf.append(&mut bytes);
}

/// Reads the u64 encoded at `buf[off..off + 8]`.
pub fn read_u64_at(buf: &Vec<u8>, off: usize) -> (x: u64)
    requires
        off + 8 <= buf@.len(),
    ensures
        x == spec_u64_from_le_bytes(buf@.subrange(off as int, off + 8)),
{
    let l: usize = buf.len();
    proof {
        assert(off + 8 <= l);
    }
    u64_from_le_bytes(slice_subrange(buf.as_slice(), off, off + 8))
}

/// Overwrites `buf[off..off + 8]` with the encoding of `x`.
pub fn write_u64_at(buf: &mut Vec<u8>, off: usize, x: u64)
    requires
        off + 8 <= old(buf)@.len(),
    ensures
        final(buf)@ == splice(old(buf)@, off as int, spec_u64_to_le_bytes(x)),
{
    let bytes = u64_to_le_bytes(x);
    write_bytes_at(buf, off, bytes.as_slice());
}

// ------------------------------------------------------------------
// numeric discriminator codec: u16, little endian, 2 bytes
// ------------------------------------------------------------------

/// Appends the 2-byte encoding of `x`.
pub fn put_u16(buf: &mut Vec<u8>, x: u16)
    ensures
        final(buf)@ == old(buf)@ + spec_u16_to_le_bytes(x),
{
    let mut bytes = u16_to_le_bytes(x);
    buf.append(&mut bytes);
}

/// Reads the u16 encoded at `buf[off..off + 2]`.
pub fn read_u16_at(buf: &Vec<u8>, off: usize) -> (x: u16)
    requires
        off + 2 <= buf@.len(),
    ensures
        x == spec_u16_from_le_bytes(buf@.subrange(off as int, off + 2)),
{
    let l: usize = buf.len();
    proof {
        assert(off + 2 <= l);
    }
    u16_from_le_bytes(slice_subrange(buf.as_slice(), off, off + 2))
}

/// Overwrites `buf[off..off + 2]` with the encoding of `x`.
pub fn write_u16_at(buf: &mut Vec<u8>, off: usize, x: u16)
    requires
        off + 2 <= old(buf)@.len(),
    ensures
        final(buf)@ == splice(old(buf)@, off as int, spec_u16_to_le_bytes(x)),
{
    let bytes = u16_to_le_bytes(x);
    write_bytes_at(buf, off, bytes.as_slice());
}

// ------------------------------------------------------------------
// boolean codec: one byte, 0 or 1
// ------------------------------------------------------------------

pub open spec fn enc_bool(b: bool) -> Seq<u8> {
    seq![if b { 1u8 } else { 0u8 }]
}

/// A stored boolean byte is well-formed when it is exactly 0 or 1, so
/// that decoding followed by encoding returns the same byte.
pub open spec fn valid_bool(s: Seq<u8>) -> bool
    recommends
        s.len() == 1,
{
    s[0] == 0u8 || s[0] == 1u8
}

pub open spec fn dec_bool(s: Seq<u8>) -> bool
    recommends
        s.len() == 1,
{
    s[0] == 1u8
}

pub proof fn lemma_bool_round_trip(b: bool)
    ensures
        enc_bool(b).len() == 1,
        valid_bool(enc_bool(b)),
        dec_bool(enc_bool(b)) == b,
{
}

pub proof fn lemma_bool_canonical(s: Seq<u8>)
    requires
        s.len() == 1,
        valid_bool(s),
    ensures
        enc_bool(dec_bool(s)) == s,
{
    assert(enc_bool(dec_bool(s)) =~= s);
}

pub fn put_bool(buf: &mut Vec<u8>, b: bool)
    ensures
        final(buf)@ == old(buf)@ + enc_bool(b),
{
    buf.push(if b { 1u8 } else { 0u8 });
    proof {
        assert(buf@ =~= old(buf)@ + enc_bool(b));
    }
}

/// Reads the boolean byte at `buf[off]`; `None` when the byte is
/// neither 0 nor 1.
pub fn read_bool_at(buf: &Vec<u8>, off: usize) -> (r: Option<bool>)
    requires
        off + 1 <= buf@.len(),
    ensures
        r is Some <==> valid_bool(buf@.subrange(off as int, off + 1)),
        r is Some ==> r->0 == dec_bool(buf@.subrange(off as int, off + 1)),
{
    let b: u8 = buf[off];
    proof {
        assert(buf@.subrange(off as int, off + 1)[0] == b);
    }
    if b == 0 {
        Some(false)
    } else if b == 1 {
        Some(true)
    } else {
        None
    }
}

// ------------------------------------------------------------------
// signed position codecs: two's complement through u32 / u64
// ------------------------------------------------------------------

/// Two's complement image of an i32 inside a u32.
pub open spec fn i32_as_u32(x: i32) -> u32 {
    if x >= 0 {
        x as u32
    } else {
        (x + 0x1_0000_0000) as u32
    }
}

pub open spec fn u32_as_i32(v: u32) -> i32 {
    if v < 0x8000_0000 {
        v as i32
    } else {
        (v - 0x1_0000_0000) as i32
    }
}

/// Two's complement image of an i64 inside a u64.
pub open spec fn i64_as_u64(x: i64) -> u64 {
    if x >= 0 {
        x as u64
    } else {
        (x + 0x1_0000_0000_0000_0000) as u64
    }
}

pub open spec fn u64_as_i64(v: u64) -> i64 {
    if v < 0x8000_0000_0000_0000 {
        v as i64
    } else {
        (v - 0x1_0000_0000_0000_0000) as i64
    }
}

pub open spec fn enc_i32(x: i32) -> Seq<u8> {
    spec_u32_to_le_bytes(i32_as_u32(x))
}

pub open spec fn dec_i32(s: Seq<u8>) -> i32
    recommends
        s.len() == 4,
{
    u32_as_i32(spec_u32_from_le_bytes(s))
}

pub proof fn lemma_i32_round_trip(x: i32)
    ensures
        enc_i32(x).len() == 4,
        dec_i32(enc_i32(x)) == x,
{
    lemma_auto_spec_u32_to_from_le_bytes();
    let v: u32 = i32_as_u32(x);
    assert(spec_u32_to_le_bytes(v).len() == 4);
    assert(spec_u32_from_le_bytes(spec_u32_to_le_bytes(v)) == v);
    assert(u32_as_i32(v) == x);
}

pub proof fn lemma_i32_canonical(s: Seq<u8>)
    requires
        s.len() == 4,
    ensures
        enc_i32(dec_i32(s)) == s,
{
    lemma_auto_spec_u32_to_from_le_bytes();
    assert(spec_u32_to_le_bytes(spec_u32_from_le_bytes(s)) == s);
}

pub open spec fn enc_i64(x: i64) -> Seq<u8> {
    spec_u64_to_le_bytes(i64_as_u64(x))
}

pub open spec fn dec_i64(s: Seq<u8>) -> i64
    recommends
        s.len() == 8,
{
    u64_as_i64(spec_u64_from_le_bytes(s))
}

pub proof fn lemma_i64_round_trip(x: i64)
    ensures
        enc_i64(x).len() == 8,
        dec_i64(enc_i64(x)) == x,
{
    lemma_auto_spec_u64_to_from_le_bytes();
}

pub proof fn lemma_i64_canonical(s: Seq<u8>)
    requires
        s.len() == 8,
    ensures
        enc_i64(dec_i64(s)) == s,
{
    lemma_auto_spec_u64_to_from_le_bytes();
    assert(spec_u64_to_le_bytes(spec_u64_from_le_bytes(s)) == s);
}

/// Exec form of `i64_as_u64`.
pub fn i64_to_u64(x: i64) -> (v: u64)
    ensures
        v == i64_as_u64(x),
{
    if x >= 0 {
        x as u64
    } else {
        ((x as i128) + 0x1_0000_0000_0000_0000i128) as u64
    }
}

/// Exec form of `u64_as_i64`.
pub fn u64_to_i64(v: u64) -> (x: i64)
    ensures
        x == u64_as_i64(v),
{
    if v < 0x8000_0000_0000_0000 {
        v as i64
    } else {
        ((v as i128) - 0x1_0000_0000_0000_0000i128) as i64
    }
}

/// Exec form of `i32_as_u32`.
pub fn i32_to_u32(x: i32) -> (v: u32)
    ensures
        v == i32_as_u32(x),
{
    if x >= 0 {
        x as u32
    } else {
        ((x as i64) + 0x1_0000_0000i64) as u32
    }
}

/// Exec form of `u32_as_i32`.
pub fn u32_to_i32(v: u32) -> (x: i32)
    ensures
        x == u32_as_i32(v),
{
    if v < 0x8000_0000 {
        v as i32
    } else {
        ((v as i64) - 0x1_0000_0000i64) as i32
    }
}

pub fn put_i64(buf: &mut Vec<u8>, x: i64)
    ensures
        final(buf)@ == old(buf)@ + enc_i64(x),
{
    put_u64(buf, i64_to_u64(x));
}

pub fn read_i64_at(buf: &Vec<u8>, off: usize) -> (x: i64)
    requires
        off + 8 <= buf@.len(),
    ensures
        x == dec_i64(buf@.subrange(off as int, off + 8)),
{
    u64_to_i64(read_u64_at(buf, off))
}

pub fn put_i32(buf: &mut Vec<u8>, x: i32)
    ensures
        final(buf)@ == old(buf)@ + enc_i32(x),
{
    let mut bytes = u32_to_le_bytes(i32_to_u32(x));
    buf.append(&mut bytes);
}

pub fn read_i32_at(buf: &Vec<u8>, off: usize) -> (x: i32)
    requires
        off + 4 <= buf@.len(),
    ensures
        x == dec_i32(buf@.subrange(off as int, off + 4)),
{
    let l: usize = buf.len();
    proof {
        assert(off + 4 <= l);
    }
    u32_to_i32(u32_from_le_bytes(slice_subrange(buf.as_slice(), off, off + 4)))
}

// ------------------------------------------------------------------
// image-hash codec: 16 hash bytes plus an animation flag, 17 bytes
// ------------------------------------------------------------------

/// An avatar or icon hash: a 128-bit value held as two 64-bit halves,
/// plus a flag for animated images.
#[derive(Clone, Copy, PartialEq, Eq, Structural, Debug)]
pub struct ImageHash {
    pub lo: u64,
    pub hi: u64,
    pub animated: bool,
}

/// The all-zero hash, the reserved payload of an absent optional hash.
pub open spec fn hash_zero() -> ImageHash {
    ImageHash { lo: 0, hi: 0, animated: false }
}

pub const HASH_LEN: usize = 17;

pub open spec fn enc_hash(h: ImageHash) -> Seq<u8> {
    spec_u64_to_le_bytes(h.lo) + spec_u64_to_le_bytes(h.hi) + enc_bool(h.animated)
}

pub open spec fn valid_hash(s: Seq<u8>) -> bool
    recommends
        s.len() == HASH_LEN,
{
    valid_bool(s.skip(16))
}

pub open spec fn dec_hash(s: Seq<u8>) -> ImageHash
    recommends
        s.len() == HASH_LEN,
{
    ImageHash {
        lo: spec_u64_from_le_bytes(s.take(8)),
        hi: spec_u64_from_le_bytes(s.subrange(8, 16)),
        animated: dec_bool(s.skip(16)),
    }
}

pub proof fn lemma_hash_round_trip(h: ImageHash)
    ensures
        enc_hash(h).len() == HASH_LEN,
        valid_hash(enc_hash(h)),
        dec_hash(enc_hash(h)) == h,
{
    lemma_auto_spec_u64_to_from_le_bytes();
    let s = enc_hash(h);
    assert(s.take(8) =~= spec_u64_to_le_bytes(h.lo));
    assert(s.subrange(8, 16) =~= spec_u64_to_le_bytes(h.hi));
    assert(s.skip(16) =~= enc_bool(h.animated));
}

pub proof fn lemma_hash_canonical(s: Seq<u8>)
    requires
        s.len() == HASH_LEN,
        valid_hash(s),
    ensures
        enc_hash(dec_hash(s)) == s,
{
    lemma_auto_spec_u64_to_from_le_bytes();
    assert(spec_u64_to_le_bytes(spec_u64_from_le_bytes(s.take(8))) == s.take(8));
    assert(spec_u64_to_le_bytes(spec_u64_from_le_bytes(s.subrange(8, 16))) == s.subrange(8, 16));
    lemma_bool_canonical(s.skip(16));
    assert(enc_hash(dec_hash(s)) =~= s.take(8) + s.subrange(8, 16) + s.skip(16));
    assert(s.take(8) + s.subrange(8, 16) + s.skip(16) =~= s);
}

pub fn put_hash(buf: &mut Vec<u8>, h: &ImageHash)
    ensures
        final(buf)@ == old(buf)@ + enc_hash(*h),
{
    put_u64(buf, h.lo);
    put_u64(buf, h.hi);
    put_bool(buf, h.animated);
    proof {
        assert(buf@ =~= old(buf)@ + enc_hash(*h));
    }
}

/// Reads the hash at `buf[off..off + 17]`; `None` when the flag byte is
/// not a well-formed boolean.
pub fn read_hash_at(buf: &Vec<u8>, off: usize) -> (r: Option<ImageHash>)
    requires
        off + HASH_LEN <= buf@.len(),
    ensures
        r is Some <==> valid_hash(buf@.subrange(off as int, off + HASH_LEN)),
        r is Some ==> r->0 == dec_hash(buf@.subrange(off as int, off + HASH_LEN)),
{
    let l: usize = buf.len();
    proof {
        assert(off + HASH_LEN <= l);
    }
    let ghost s = buf@.subrange(off as int, off + HASH_LEN);
    let lo: u64 = read_u64_at(buf, off);
    let hi: u64 = read_u64_at(buf, off + 8);
    proof {
        assert(s.take(8) =~= buf@.subrange(off as int, off + 8));
        assert(s.subrange(8, 16) =~= buf@.subrange(off + 8, off + 16));
        assert(s.skip(16) =~= buf@.subrange(off + 16, off + HASH_LEN));
    }
    match read_bool_at(buf, off + 16) {
        Some(animated) => Some(ImageHash { lo, hi, animated }),
        None => None,
    }
}

// ------------------------------------------------------------------
// optional-of codec, fixed-width payloads
//
// One tag byte, 0 or 1, followed by the payload bytes.  The payload
// space is reserved even when the value is absent (it then holds the
// encoding of the zero value), so the whole field keeps a constant
// width and remains eligible for in-place patching.
// ------------------------------------------------------------------

pub open spec fn enc_opt_u64(x: Option<u64>) -> Seq<u8> {
    match x {
        Some(v) => seq![1u8] + spec_u64_to_le_bytes(v),
        None => seq![0u8] + spec_u64_to_le_bytes(0),
    }
}

pub open spec fn valid_opt_u64(s: Seq<u8>) -> bool
    recommends
        s.len() == 9,
{
    s[0] == 1u8 || (s[0] == 0u8 && s.skip(1) == spec_u64_to_le_bytes(0))
}

pub open spec fn dec_opt_u64(s: Seq<u8>) -> Option<u64>
    recommends
        s.len() == 9,
{
    if s[0] == 1u8 {
        Some(spec_u64_from_le_bytes(s.skip(1)))
    } else {
        None
    }
}

pub proof fn lemma_opt_u64_round_trip(x: Option<u64>)
    ensures
        enc_opt_u64(x).len() == 9,
        valid_opt_u64(enc_opt_u64(x)),
        dec_opt_u64(enc_opt_u64(x)) == x,
{
    lemma_auto_spec_u64_to_from_le_bytes();
    let s = enc_opt_u64(x);
    match x {
        Some(v) => {
            assert(s.skip(1) =~= spec_u64_to_le_bytes(v));
        },
        None => {
            assert(s.skip(1) =~= spec_u64_to_le_bytes(0));
        },
    }
}

pub proof fn lemma_opt_u64_canonical(s: Seq<u8>)
    requires
        s.len() == 9,
        valid_opt_u64(s),
    ensures
        enc_opt_u64(dec_opt_u64(s)) == s,
{
    lemma_auto_spec_u64_to_from_le_bytes();
    if s[0] == 1u8 {
        assert(spec_u64_to_le_bytes(spec_u64_from_le_bytes(s.skip(1))) == s.skip(1));
        assert(enc_opt_u64(dec_opt_u64(s)) =~= s);
    } else {
        assert(enc_opt_u64(dec_opt_u64(s)) =~= s);
    }
}

pub fn put_opt_u64(buf: &mut Vec<u8>, x: Option<u64>)
    ensures
        final(buf)@ == old(buf)@ + enc_opt_u64(x),
{
    match x {
        Some(v) => {
            buf.push(1u8);
            put_u64(buf, v);
        },
        None => {
            buf.push(0u8);
            put_u64(buf, 0);
        },
    }
    proof {
        assert(buf@ =~= old(buf)@ + enc_opt_u64(x));
    }
}

pub fn read_opt_u64_at(buf: &Vec<u8>, off: usize) -> (r: Option<Option<u64>>)
    requires
        off + 9 <= buf@.len(),
    ensures
        r is Some <==> valid_opt_u64(buf@.subrange(off as int, off + 9)),
        r is Some ==> r->0 == dec_opt_u64(buf@.subrange(off as int, off + 9)),
{
    let l: usize = buf.len();
    let ghost s = buf@.subrange(off as int, off + 9);
    proof {
        assert(off + 9 <= l);
        lemma_auto_spec_u64_to_from_le_bytes();
        assert(s.skip(1) =~= buf@.subrange(off + 1, off + 9));
        assert(s[0] == buf@[off as int]);
    }
    let tag: u8 = buf[off];
    let v: u64 = read_u64_at(buf, off + 1);
    if tag == 1 {
        Some(Some(v))
    } else if tag == 0 && v == 0 {
        proof {
            assert(spec_u64_to_le_bytes(spec_u64_from_le_bytes(s.skip(1))) == s.skip(1));
            assert(spec_u64_to_le_bytes(0u64).len() == 8);
        }
        Some(None)
    } else {
        proof {
            if tag == 0 && s.skip(1) == spec_u64_to_le_bytes(0) {
                assert(spec_u64_from_le_bytes(spec_u64_to_le_bytes(0u64)) == 0u64);
            }
        }
        None
    }
}

/// Overwrites the 9 bytes at `off` with the encoding of `x`.
pub fn write_opt_u64_at(buf: &mut Vec<u8>, off: usize, x: Option<u64>)
    requires
        off + 9 <= old(buf)@.len(),
    ensures
        final(buf)@ == splice(old(buf)@, off as int, enc_opt_u64(x)),
{
    let mut field: Vec<u8> = Vec::new();
    put_opt_u64(&mut field, x);
    proof {
        lemma_opt_u64_round_trip(x);
    }
    write_bytes_at(buf, off, field.as_slice());
}

pub open spec fn enc_opt_hash(x: Option<ImageHash>) -> Seq<u8> {
    match x {
        Some(h) => seq![1u8] + enc_hash(h),
        None => seq![0u8] + enc_hash(hash_zero()),
    }
}

pub const OPT_HASH_LEN: usize = 18;

pub open spec fn valid_opt_hash(s: Seq<u8>) -> bool
    recommends
        s.len() == OPT_HASH_LEN,
{
    (s[0] == 1u8 && valid_hash(s.skip(1))) || (s[0] == 0u8 && s.skip(1) == enc_hash(hash_zero()))
}

pub open spec fn dec_opt_hash(s: Seq<u8>) -> Option<ImageHash>
    recommends
        s.len() == OPT_HASH_LEN,
{
    if s[0] == 1u8 {
        Some(dec_hash(s.skip(1)))
    } else {
        None
    }
}

pub proof fn lemma_opt_hash_round_trip(x: Option<ImageHash>)
    ensures
        enc_opt_hash(x).len() == OPT_HASH_LEN,
        valid_opt_hash(enc_opt_hash(x)),
        dec_opt_hash(enc_opt_hash(x)) == x,
{
    let s = enc_opt_hash(x);
    match x {
        Some(h) => {
            lemma_hash_round_trip(h);
            assert(s.skip(1) =~= enc_hash(h));
        },
        None => {
            lemma_hash_round_trip(hash_zero());
            assert(s.skip(1) =~= enc_hash(hash_zero()));
        },
    }
}

pub proof fn lemma_opt_hash_canonical(s: Seq<u8>)
    requires
        s.len() == OPT_HASH_LEN,
        valid_opt_hash(s),
    ensures
        enc_opt_hash(dec_opt_hash(s)) == s,
{
    if s[0] == 1u8 {
        lemma_hash_canonical(s.skip(1));
        assert(enc_opt_hash(dec_opt_hash(s)) =~= s);
    } else {
        assert(enc_opt_hash(dec_opt_hash(s)) =~= s);
    }
}

pub fn put_opt_hash(buf: &mut Vec<u8>, x: &Option<ImageHash>)
    ensures
        final(buf)@ == old(buf)@ + enc_opt_hash(*x),
{
    match x {
        Some(h) => {
            buf.push(1u8);
            put_hash(buf, h);
        },
        None => {
            buf.push(0u8);
            let zero = ImageHash { lo: 0, hi: 0, animated: false };
            put_hash(buf, &zero);
        },
    }
    proof {
        assert(buf@ =~= old(buf)@ + enc_opt_hash(*x));
    }
}

pub fn read_opt_hash_at(buf: &Vec<u8>, off: usize) -> (r: Option<Option<ImageHash>>)
    requires
        off + OPT_HASH_LEN <= buf@.len(),
    ensures
        r is Some <==> valid_opt_hash(buf@.subrange(off as int, off + OPT_HASH_LEN)),
        r is Some ==> r->0 == dec_opt_hash(buf@.subrange(off as int, off + OPT_HASH_LEN)),
{
    let l: usize = buf.len();
    let ghost s = buf@.subrange(off as int, off + OPT_HASH_LEN);
    proof {
        assert(off + OPT_HASH_LEN <= l);
        assert(s.skip(1) =~= buf@.subrange(off + 1, off + OPT_HASH_LEN));
        assert(s[0] == buf@[off as int]);
    }
    let tag: u8 = buf[off];
    let payload: Option<ImageHash> = read_hash_at(buf, off + 1);
    match payload {
        Some(h) => {
            if tag == 1 {
                Some(Some(h))
            } else if tag == 0 && h.lo == 0 && h.hi == 0 && !h.animated {
                proof {
                    lemma_hash_canonical(s.skip(1));
                }
                Some(None)
            } else {
                proof {
                    if tag == 0 && s.skip(1) == enc_hash(hash_zero()) {
                        lemma_hash_round_trip(hash_zero());
                    }
                }
                None
            }
        },
        None => {
            proof {
                if s[0] == 0u8 && s.skip(1) == enc_hash(hash_zero()) {
                    lemma_hash_round_trip(hash_zero());
                }
            }
            None
        },
    }
}

/// Overwrites the 18 bytes at `off` with the encoding of `x`.
pub fn write_opt_hash_at(buf: &mut Vec<u8>, off: usize, x: &Option<ImageHash>)
    requires
        off + OPT_HASH_LEN <= old(buf)@.len(),
    ensures
        final(buf)@ == splice(old(buf)@, off as int, enc_opt_hash(*x)),
{
    let mut field: Vec<u8> = Vec::new();
    put_opt_hash(&mut field, x);
    proof {
        lemma_opt_hash_round_trip(*x);
    }
    write_bytes_at(buf, off, field.as_slice());
}

pub open spec fn enc_opt_i32(x: Option<i32>) -> Seq<u8> {
    match x {
        Some(v) => seq![1u8] + enc_i32(v),
        None => seq![0u8] + enc_i32(0),
    }
}

pub open spec fn valid_opt_i32(s: Seq<u8>) -> bool
    recommends
        s.len() == 5,
{
    s[0] == 1u8 || (s[0] == 0u8 && s.skip(1) == enc_i32(0))
}

pub open spec fn dec_opt_i32(s: Seq<u8>) -> Option<i32>
    recommends
        s.len() == 5,
{
    if s[0] == 1u8 {
        Some(dec_i32(s.skip(1)))
    } else {
        None
    }
}

pub proof fn lemma_opt_i32_round_trip(x: Option<i32>)
    ensures
        enc_opt_i32(x).len() == 5,
        valid_opt_i32(enc_opt_i32(x)),
        dec_opt_i32(enc_opt_i32(x)) == x,
{
    let s = enc_opt_i32(x);
    match x {
        Some(v) => {
            lemma_i32_round_trip(v);
            assert(s.skip(1) =~= enc_i32(v));
        },
        None => {
            lemma_i32_round_trip(0);
            assert(s.skip(1) =~= enc_i32(0));
        },
    }
}

pub fn put_opt_i32(buf: &mut Vec<u8>, x: Option<i32>)
    ensures
        final(buf)@ == old(buf)@ + enc_opt_i32(x),
{
    match x {
        Some(v) => {
            buf.push(1u8);
            put_i32(buf, v);
        },
        None => {
            buf.push(0u8);
            put_i32(buf, 0);
        },
    }
    proof {
        assert(buf@ =~= old(buf)@ + enc_opt_i32(x));
    }
}

pub fn read_opt_i32_at(buf: &Vec<u8>, off: usize) -> (r: Option<Option<i32>>)
    requires
        off + 5 <= buf@.len(),
    ensures
        r is Some <==> valid_opt_i32(buf@.subrange(off as int, off + 5)),
        r is Some ==> r->0 == dec_opt_i32(buf@.subrange(off as int, off + 5)),
{
    let l: usize = buf.len();
    let ghost s = buf@.subrange(off as int, off + 5);
    proof {
        assert(off + 5 <= l);
        assert(s.skip(1) =~= buf@.subrange(off + 1, off + 5));
        assert(s[0] == buf@[off as int]);
    }
    let tag: u8 = buf[off];
    let v: i32 = read_i32_at(buf, off + 1);
    if tag == 1 {
        Some(Some(v))
    } else if tag == 0 && v == 0 {
        proof {
            lemma_i32_canonical(s.skip(1));
        }
        Some(None)
    } else {
        proof {
            if tag == 0 && s.skip(1) == enc_i32(0) {
                lemma_i32_round_trip(0);
            }
        }
        None
    }
}

// ------------------------------------------------------------------
// variable-length codecs
//
// A blob is a byte string preceded by its 8-byte length; an optional
// blob spends one presence byte and stores the blob only when present.
// These fields may change byte length on update, so they are never
// patched in place.
// ------------------------------------------------------------------

pub open spec fn enc_blob(b: Seq<u8>) -> Seq<u8>
    recommends
        b.len() <= u64::MAX,
{
    spec_u64_to_le_bytes(b.len() as u64) + b
}

/// Whether a blob starts at `off` in `s` and lies entirely inside `s`.
pub open spec fn blob_at_ok(s: Seq<u8>, off: int) -> bool {
    &&& 0 <= off
    &&& off + 8 <= s.len()
    &&& off + 8 + spec_u64_from_le_bytes(s.subrange(off, off + 8)) <= s.len()
}

/// The offset of the first byte after the blob starting at `off`.
pub open spec fn blob_at_end(s: Seq<u8>, off: int) -> int {
    off + 8 + spec_u64_from_le_bytes(s.subrange(off, off + 8))
}

/// The content of the blob starting at `off`.
pub open spec fn blob_at(s: Seq<u8>, off: int) -> Seq<u8> {
    s.subrange(off + 8, blob_at_end(s, off))
}

/// When the bytes of `s` from `off` on start with `enc_blob(b)`, the
/// blob read back at `off` is exactly `b`.
pub proof fn lemma_blob_embed(s: Seq<u8>, off: int, b: Seq<u8>)
    requires
        0 <= off,
        b.len() <= u64::MAX,
        off + 8 + b.len() <= s.len(),
        s.subrange(off, off + 8 + b.len()) == enc_blob(b),
    ensures
        blob_at_ok(s, off),
        blob_at_end(s, off) == off + 8 + b.len(),
        blob_at(s, off) == b,
{
    lemma_auto_spec_u64_to_from_le_bytes();
    let w = s.subrange(off, off + 8 + b.len());
    assert(spec_u64_to_le_bytes(b.len() as u64).len() == 8);
    assert(s.subrange(off, off + 8) =~= w.take(8));
    assert(w.take(8) =~= spec_u64_to_le_bytes(b.len() as u64));
    assert(spec_u64_from_le_bytes(s.subrange(off, off + 8)) == b.len());
    assert(blob_at(s, off) =~= w.skip(8));
    assert(w.skip(8) =~= b);
}

pub fn put_blob(buf: &mut Vec<u8>, b: &[u8])
    ensures
        final(buf)@ == old(buf)@ + enc_blob(b@),
{
    put_u64(buf, b.len() as u64);
    let mut content = slice_to_vec(b);
    buf.append(&mut content);
    proof {
        assert(buf@ =~= old(buf)@ + enc_blob(b@));
    }
}

/// Reads the blob starting at `off`: its content and the offset just
/// after it.  `None` when the stated length runs past the end.
pub fn read_blob_at(buf: &Vec<u8>, off: usize) -> (r: Option<(Vec<u8>, usize)>)
    requires
        off <= buf@.len(),
    ensures
        r is Some <==> blob_at_ok(buf@, off as int),
        r matches Some((b, end)) ==> b@ == blob_at(buf@, off as int) && end == blob_at_end(
            buf@,
            off as int,
        ),
{
    let l: usize = buf.len();
    if l - off < 8 {
        return None;
    }
    let n: u64 = read_u64_at(buf, off);
    if n > (l - off - 8) as u64 {
        None
    } else {
        let end: usize = off + 8 + (n as usize);
        let b = slice_to_vec(slice_subrange(buf.as_slice(), off + 8, end));
        Some((b, end))
    }
}

pub open spec fn enc_opt_blob(o: Option<Seq<u8>>) -> Seq<u8> {
    match o {
        Some(b) => seq![1u8] + enc_blob(b),
        None => seq![0u8],
    }
}

pub open spec fn opt_blob_at_ok(s: Seq<u8>, off: int) -> bool {
    &&& 0 <= off
    &&& off + 1 <= s.len()
    &&& valid_bool(s.subrange(off, off + 1))
    &&& (s[off] == 1u8 ==> blob_at_ok(s, off + 1))
}

pub open spec fn opt_blob_at_end(s: Seq<u8>, off: int) -> int {
    if s[off] == 1u8 {
        blob_at_end(s, off + 1)
    } else {
        off + 1
    }
}

pub open spec fn opt_blob_at(s: Seq<u8>, off: int) -> Option<Seq<u8>> {
    if s[off] == 1u8 {
        Some(blob_at(s, off + 1))
    } else {
        None
    }
}

pub proof fn lemma_opt_blob_embed(s: Seq<u8>, off: int, o: Option<Seq<u8>>)
    requires
        0 <= off,
        o matches Some(b) ==> b.len() <= u64::MAX,
        off + enc_opt_blob(o).len() <= s.len(),
        s.subrange(off, off + enc_opt_blob(o).len()) == enc_opt_blob(o),
    ensures
        opt_blob_at_ok(s, off),
        opt_blob_at_end(s, off) == off + enc_opt_blob(o).len(),
        opt_blob_at(s, off) == o,
{
    let e = enc_opt_blob(o);
    assert(s[off] == e[0]);
    match o {
        Some(b) => {
            assert(s[off] == 1u8);
            assert(spec_u64_to_le_bytes(b.len() as u64).len() == 8) by {
                lemma_auto_spec_u64_to_from_le_bytes();
            }
            assert(s.subrange(off + 1, off + 1 + 8 + b.len()) =~= e.skip(1));
            assert(e.skip(1) =~= enc_blob(b));
            lemma_blob_embed(s, off + 1, b);
        },
        None => {
            assert(s[off] == 0u8);
        },
    }
}

pub fn put_opt_blob(buf: &mut Vec<u8>, o: &Option<Vec<u8>>)
    ensures
        final(buf)@ == old(buf)@ + enc_opt_blob(match *o {
            Some(b) => Some(b@),
            None => None,
        }),
{
    match o {
        Some(b) => {
            buf.push(1u8);
            put_blob(buf, b.as_slice());
        },
        None => {
            buf.push(0u8);
        },
    }
    proof {
        assert(buf@ =~= old(buf)@ + enc_opt_blob(match *o {
            Some(b) => Some(b@),
            None => None,
        }));
    }
}

/// Reads the optional blob starting at `off`.  `None` when the presence
/// byte is malformed or the stated length runs past the end.
pub fn read_opt_blob_at(buf: &Vec<u8>, off: usize) -> (r: Option<(Option<Vec<u8>>, usize)>)
    requires
        off < buf@.len(),
    ensures
        r is Some <==> opt_blob_at_ok(buf@, off as int),
        r matches Some((o, end)) ==> end == opt_blob_at_end(buf@, off as int) && (match o {
            Some(b) => opt_blob_at(buf@, off as int) == Some(b@),
            None => opt_blob_at(buf@, off as int) is None,
        }),
{
    let l: usize = buf.len();
    let tag: u8 = buf[off];
    proof {
        assert(buf@.subrange(off as int, off + 1)[0] == tag);
    }
    if tag == 1 {
        match read_blob_at(buf, off + 1) {
            Some((b, end)) => Some((Some(b), end)),
            None => None,
        }
    } else if tag == 0 {
        Some((None, off + 1))
    } else {
        None
    }
}

// ------------------------------------------------------------------
// list-of codec for identifiers: an 8-byte count, then the elements
// ------------------------------------------------------------------

pub open spec fn enc_u64s(l: Seq<u64>) -> Seq<u8>
    decreases l.len(),
{
    if l.len() == 0 {
        Seq::empty()
    } else {
        spec_u64_to_le_bytes(l[0]) + enc_u64s(l.drop_first())
    }
}

pub open spec fn enc_u64_list(l: Seq<u64>) -> Seq<u8>
    recommends
        l.len() <= u64::MAX,
{
    spec_u64_to_le_bytes(l.len() as u64) + enc_u64s(l)
}

pub open spec fn dec_u64s(s: Seq<u8>) -> Seq<u64> {
    Seq::new((s.len() / 8) as nat, |i: int| spec_u64_from_le_bytes(s.subrange(8 * i, 8 * i + 8)))
}

pub proof fn lemma_enc_u64s_len(l: Seq<u64>)
    ensures
        enc_u64s(l).len() == 8 * l.len(),
    decreases l.len(),
{
    lemma_auto_spec_u64_to_from_le_bytes();
    if l.len() > 0 {
        lemma_enc_u64s_len(l.drop_first());
        assert(spec_u64_to_le_bytes(l[0]).len() == 8);
    }
}

pub proof fn lemma_enc_u64s_index(l: Seq<u64>, i: int)
    requires
        0 <= i < l.len(),
    ensures
        enc_u64s(l).subrange(8 * i, 8 * i + 8) == spec_u64_to_le_bytes(l[i]),
    decreases l.len(),
{
    lemma_auto_spec_u64_to_from_le_bytes();
    lemma_enc_u64s_len(l);
    lemma_enc_u64s_len(l.drop_first());
    assert(spec_u64_to_le_bytes(l[0]).len() == 8);
    if i == 0 {
        assert(enc_u64s(l).subrange(0, 8) =~= spec_u64_to_le_bytes(l[0]));
    } else {
        lemma_enc_u64s_index(l.drop_first(), i - 1);
        assert(enc_u64s(l).subrange(8 * i, 8 * i + 8) =~= enc_u64s(l.drop_first()).subrange(
            8 * (i - 1),
            8 * (i - 1) + 8,
        ));
    }
}

pub proof fn lemma_u64s_round_trip(l: Seq<u64>)
    ensures
        enc_u64s(l).len() == 8 * l.len(),
        dec_u64s(enc_u64s(l)) == l,
{
    lemma_auto_spec_u64_to_from_le_bytes();
    lemma_enc_u64s_len(l);
    assert forall|i: int| 0 <= i < l.len() implies dec_u64s(enc_u64s(l))[i] == l[i] by {
        lemma_enc_u64s_index(l, i);
        assert(spec_u64_to_le_bytes(l[i]).len() == 8);
    }
    assert(dec_u64s(enc_u64s(l)) =~= l);
}

pub proof fn lemma_u64s_canonical(s: Seq<u8>)
    requires
        s.len() % 8 == 0,
    ensures
        enc_u64s(dec_u64s(s)) == s,
    decreases s.len(),
{
    lemma_auto_spec_u64_to_from_le_bytes();
    if s.len() == 0 {
        assert(enc_u64s(dec_u64s(s)) =~= s);
    } else {
        let head = s.subrange(0, 8);
        let tail = s.skip(8);
        assert(tail.len() % 8 == 0);
        lemma_u64s_canonical(tail);
        assert(dec_u64s(s).len() == s.len() / 8);
        assert(dec_u64s(s).drop_first() =~= dec_u64s(tail)) by {
            assert forall|i: int| 0 <= i < dec_u64s(s).len() - 1 implies dec_u64s(s).drop_first()[i]
                == dec_u64s(tail)[i] by {
                assert(s.subrange(8 * (i + 1), 8 * (i + 1) + 8) =~= tail.subrange(8 * i, 8 * i + 8));
            }
        }
        assert(spec_u64_to_le_bytes(dec_u64s(s)[0]) == head) by {
            assert(head.len() == 8);
            assert(dec_u64s(s)[0] == spec_u64_from_le_bytes(head));
        }
        assert(enc_u64s(dec_u64s(s)) =~= s) by {
            assert(enc_u64s(dec_u64s(s)) == spec_u64_to_le_bytes(dec_u64s(s)[0]) + enc_u64s(
                dec_u64s(s).drop_first(),
            ));
            assert(head + tail =~= s);
        }
    }
}

pub proof fn lemma_enc_u64s_snoc(l: Seq<u64>, x: u64)
    ensures
        enc_u64s(l.push(x)) == enc_u64s(l) + spec_u64_to_le_bytes(x),
    decreases l.len(),
{
    if l.len() == 0 {
        assert(l.push(x)[0] == x);
        assert(l.push(x).drop_first() =~= Seq::<u64>::empty());
        assert(enc_u64s(Seq::<u64>::empty()) == Seq::<u8>::empty());
        assert(enc_u64s(l.push(x)) =~= spec_u64_to_le_bytes(x));
        assert(enc_u64s(l) + spec_u64_to_le_bytes(x) =~= spec_u64_to_le_bytes(x));
    } else {
        lemma_enc_u64s_snoc(l.drop_first(), x);
        assert(l.push(x)[0] == l[0]);
        assert(l.push(x).drop_first() =~= l.drop_first().push(x));
        assert(enc_u64s(l.push(x)) =~= enc_u64s(l) + spec_u64_to_le_bytes(x));
    }
}

pub fn put_u64_list(buf: &mut Vec<u8>, l: &Vec<u64>)
    ensures
        final(buf)@ == old(buf)@ + enc_u64_list(l@),
{
    let n: usize = l.len();
    put_u64(buf, n as u64);
    let mut i: usize = 0;
    while i < n
        invariant
            n == l@.len(),
            i <= n,
            buf@ == old(buf)@ + spec_u64_to_le_bytes(n as u64) + enc_u64s(l@.take(i as int)),
        decreases n - i,
    {
        put_u64(buf, l[i]);
        proof {
            lemma_enc_u64s_snoc(l@.take(i as int), l@[i as int]);
            assert(l@.take(i + 1) =~= l@.take(i as int).push(l@[i as int]));
        }
        i = i + 1;
    }
    proof {
        assert(l@.take(n as int) =~= l@);
        assert(buf@ =~= old(buf)@ + enc_u64_list(l@));
    }
}

/// Whether a whole identifier list starts at `off` and lies inside `s`.
pub open spec fn u64_list_at_ok(s: Seq<u8>, off: int) -> bool {
    &&& 0 <= off
    &&& off + 8 <= s.len()
    &&& off + 8 + 8 * spec_u64_from_le_bytes(s.subrange(off, off + 8)) <= s.len()
}

pub open spec fn u64_list_at_end(s: Seq<u8>, off: int) -> int {
    off + 8 + 8 * spec_u64_from_le_bytes(s.subrange(off, off + 8))
}

pub open spec fn u64_list_at(s: Seq<u8>, off: int) -> Seq<u64> {
    dec_u64s(s.subrange(off + 8, u64_list_at_end(s, off)))
}

pub proof fn lemma_u64_list_embed(s: Seq<u8>, off: int, l: Seq<u64>)
    requires
        0 <= off,
        l.len() <= u64::MAX,
        off + enc_u64_list(l).len() <= s.len(),
        s.subrange(off, off + enc_u64_list(l).len()) == enc_u64_list(l),
    ensures
        u64_list_at_ok(s, off),
        u64_list_at_end(s, off) == off + enc_u64_list(l).len(),
        u64_list_at(s, off) == l,
{
    lemma_auto_spec_u64_to_from_le_bytes();
    lemma_enc_u64s_len(l);
    let e = enc_u64_list(l);
    assert(spec_u64_to_le_bytes(l.len() as u64).len() == 8);
    assert(s.subrange(off, off + 8) =~= e.take(8));
    assert(e.take(8) =~= spec_u64_to_le_bytes(l.len() as u64));
    assert(spec_u64_from_le_bytes(s.subrange(off, off + 8)) == l.len());
    assert(s.subrange(off + 8, off + 8 + 8 * l.len()) =~= e.skip(8));
    assert(e.skip(8) =~= enc_u64s(l));
    lemma_u64s_round_trip(l);
}

/// Reads the identifier list starting at `off`: the elements and the
/// offset just after them.  `None` when the count runs past the end.
pub fn read_u64_list_at(buf: &Vec<u8>, off: usize) -> (r: Option<(Vec<u64>, usize)>)
    requires
        off <= buf@.len(),
    ensures
        r is Some <==> u64_list_at_ok(buf@, off as int),
        r matches Some((l, end)) ==> l@ == u64_list_at(buf@, off as int) && end == u64_list_at_end(
            buf@,
            off as int,
        ),
{
    let l: usize = buf.len();
    if l - off < 8 {
        return None;
    }
    let n: u64 = read_u64_at(buf, off);
    if n > ((l - off - 8) / 8) as u64 {
        proof {
            assert(8 * n > l - off - 8);
        }
        return None;
    }
    let count: usize = n as usize;
    proof {
        assert(8 * n <= l - off - 8);
    }
    let end: usize = off + 8 + 8 * count;
    let ghost content = buf@.subrange(off + 8, end as int);
    let mut items: Vec<u64> = Vec::new();
    let mut i: usize = 0;
    while i < count
        invariant
            count == n,
            off + 8 + 8 * count <= buf@.len(),
            end == off + 8 + 8 * count,
            content == buf@.subrange(off + 8, end as int),
            i <= count,
            items@.len() == i,
            forall|j: int|
                0 <= j < i ==> items@[j] == spec_u64_from_le_bytes(
                    buf@.subrange(off + 8 + 8 * j, off + 8 + 8 * j + 8),
                ),
        decreases count - i,
    {
        items.push(read_u64_at(buf, off + 8 + 8 * i));
        i = i + 1;
    }
    proof {
        assert(content.len() == 8 * count);
        assert forall|j: int| 0 <= j < count implies items@[j] == dec_u64s(content)[j] by {
            assert(content.subrange(8 * j, 8 * j + 8) =~= buf@.subrange(
                off + 8 + 8 * j,
                off + 8 + 8 * j + 8,
            ));
        }
        assert(items@ =~= dec_u64s(content));
    }
    Some((items, end))
}

} // verus!
