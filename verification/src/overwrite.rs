//! The packed permission-override record and its hand-assembled codec.
//!
//! An override is a composite of four independently wrapped fields —
//! allow flags, deny flags, id, type tag — packed with no padding.  No
//! single generic codec can express that combination, so the record is
//! assembled by hand: each field's encoding is written at the record's
//! base offset plus the cumulative size of the fields declared before
//! it.  Record `i` of a list therefore starts exactly `i` record sizes
//! after the list header.

use crate::codec::splice;
use crate::codec::{put_u64, read_u64_at, write_u64_at};
use vstd::bytes::*;
use vstd::prelude::*;
use vstd::slice::slice_index_get;

verus! {

/// Whether an override targets a role or a single member.
#[derive(Clone, Copy, PartialEq, Eq, Structural, Debug)]
pub enum OverwriteKind {
    Role,
    Member,
}

/// The byte tag of an override kind.
pub open spec fn kind_byte(k: OverwriteKind) -> u8 {
    match k {
        OverwriteKind::Role => 0u8,
        OverwriteKind::Member => 1u8,
    }
}

pub open spec fn valid_kind_byte(b: u8) -> bool {
    b == 0u8 || b == 1u8
}

pub open spec fn dec_kind_byte(b: u8) -> OverwriteKind
    recommends
        valid_kind_byte(b),
{
    if b == 1u8 {
        OverwriteKind::Member
    } else {
        OverwriteKind::Role
    }
}

/// A permission override: allow flags, deny flags, target id and kind.
#[derive(Clone, Copy, PartialEq, Eq, Structural, Debug)]
pub struct PermissionOverwrite {
    pub allow: u64,
    pub deny: u64,
    pub id: u64,
    pub kind: OverwriteKind,
}

/// Field offsets inside the packed record: each field sits at the
/// cumulative size of the fields before it.
pub const OVERWRITE_DENY_OFF: usize = 8;

pub const OVERWRITE_ID_OFF: usize = 16;

pub const OVERWRITE_KIND_OFF: usize = 24;

/// The packed record size: four fields, no padding.
pub const OVERWRITE_SIZE: usize = 25;

pub open spec fn enc_overwrite(o: PermissionOverwrite) -> Seq<u8> {
    spec_u64_to_le_bytes(o.allow) + spec_u64_to_le_bytes(o.deny) + spec_u64_to_le_bytes(o.id)
        + seq![kind_byte(o.kind)]
}

pub open spec fn valid_overwrite(s: Seq<u8>) -> bool
    recommends
        s.len() == OVERWRITE_SIZE,
{
    valid_kind_byte(s[OVERWRITE_KIND_OFF as int])
}

pub open spec fn dec_overwrite(s: Seq<u8>) -> PermissionOverwrite
    recommends
        s.len() == OVERWRITE_SIZE,
{
    PermissionOverwrite {
        allow: spec_u64_from_le_bytes(s.subrange(0, OVERWRITE_DENY_OFF as int)),
        deny: spec_u64_from_le_bytes(s.subrange(OVERWRITE_DENY_OFF as int, OVERWRITE_ID_OFF as int)),
        id: spec_u64_from_le_bytes(s.subrange(OVERWRITE_ID_OFF as int, OVERWRITE_KIND_OFF as int)),
        kind: dec_kind_byte(s[OVERWRITE_KIND_OFF as int]),
    }
}

/// Round trip: decoding an encoded override returns it unchanged.
pub proof fn lemma_overwrite_round_trip(o: PermissionOverwrite)
    ensures
        enc_overwrite(o).len() == OVERWRITE_SIZE,
        valid_overwrite(enc_overwrite(o)),
        dec_overwrite(enc_overwrite(o)) == o,
{
    lemma_auto_spec_u64_to_from_le_bytes();
    let s = enc_overwrite(o);
    assert(spec_u64_to_le_bytes(o.allow).len() == 8);
    assert(spec_u64_to_le_bytes(o.deny).len() == 8);
    assert(spec_u64_to_le_bytes(o.id).len() == 8);
    assert(s.subrange(0, OVERWRITE_DENY_OFF as int) =~= spec_u64_to_le_bytes(o.allow));
    assert(s.subrange(OVERWRITE_DENY_OFF as int, OVERWRITE_ID_OFF as int) =~= spec_u64_to_le_bytes(
        o.deny,
    ));
    assert(s.subrange(OVERWRITE_ID_OFF as int, OVERWRITE_KIND_OFF as int) =~= spec_u64_to_le_bytes(
        o.id,
    ));
    assert(s[OVERWRITE_KIND_OFF as int] == kind_byte(o.kind));
}

/// The hand-assembled codec strategy for the packed override record.
pub struct PermissionOverwriteRkyv;

impl PermissionOverwriteRkyv {
    /// Writes each field's encoding at `pos` plus the cumulative size
    /// of the preceding fields, inside a buffer the caller has already
    /// sized.
    pub fn resolve_with(overwrite: &PermissionOverwrite, pos: usize, out: &mut Vec<u8>)
        requires
            pos + OVERWRITE_SIZE <= old(out)@.len(),
        ensures
            final(out)@ == splice(old(out)@, pos as int, enc_overwrite(*overwrite)),
    {
        let l: usize = out.len();
        proof {
            assert(pos + OVERWRITE_SIZE <= l);
        }
        write_u64_at(out, pos, overwrite.allow);
        write_u64_at(out, pos + OVERWRITE_DENY_OFF, overwrite.deny);
        write_u64_at(out, pos + OVERWRITE_ID_OFF, overwrite.id);
        out[pos + OVERWRITE_KIND_OFF] = match overwrite.kind {
            OverwriteKind::Role => 0u8,
            OverwriteKind::Member => 1u8,
        };
        proof {
            lemma_auto_spec_u64_to_from_le_bytes();
            assert(spec_u64_to_le_bytes(overwrite.allow).len() == 8);
            assert(spec_u64_to_le_bytes(overwrite.deny).len() == 8);
            assert(spec_u64_to_le_bytes(overwrite.id).len() == 8);
            assert(out@ =~= splice(old(out)@, pos as int, enc_overwrite(*overwrite)));
        }
    }

    /// Appends the record's encoding to a buffer under construction.
    pub fn serialize_with(overwrite: &PermissionOverwrite, out: &mut Vec<u8>)
        ensures
            final(out)@ == old(out)@ + enc_overwrite(*overwrite),
    {
        put_u64(out, overwrite.allow);
        put_u64(out, overwrite.deny);
        put_u64(out, overwrite.id);
        out.push(match overwrite.kind {
            OverwriteKind::Role => 0u8,
            OverwriteKind::Member => 1u8,
        });
        proof {
            assert(out@ =~= old(out)@ + enc_overwrite(*overwrite));
        }
    }

    /// Reads the record at `pos`; `None` when the kind byte is not a
    /// known tag.
    pub fn deserialize_with(buf: &Vec<u8>, pos: usize) -> (r: Option<PermissionOverwrite>)
        requires
            pos + OVERWRITE_SIZE <= buf@.len(),
        ensures
            r is Some <==> valid_overwrite(buf@.subrange(pos as int, pos + OVERWRITE_SIZE)),
            r is Some ==> r->0 == dec_overwrite(buf@.subrange(pos as int, pos + OVERWRITE_SIZE)),
    {
        let l: usize = buf.len();
        proof {
            assert(pos + OVERWRITE_SIZE <= l);
        }
        let ghost s = buf@.subrange(pos as int, pos + OVERWRITE_SIZE);
        let allow: u64 = read_u64_at(buf, pos);
        let deny: u64 = read_u64_at(buf, pos + OVERWRITE_DENY_OFF);
        let id: u64 = read_u64_at(buf, pos + OVERWRITE_ID_OFF);
        let tag: u8 = buf[pos + OVERWRITE_KIND_OFF];
        proof {
            assert(s.subrange(0, OVERWRITE_DENY_OFF as int) =~= buf@.subrange(
                pos as int,
                pos + OVERWRITE_DENY_OFF,
            ));
            assert(s.subrange(OVERWRITE_DENY_OFF as int, OVERWRITE_ID_OFF as int) =~= buf@.subrange(
                pos + OVERWRITE_DENY_OFF,
                pos + OVERWRITE_ID_OFF,
            ));
            assert(s.subrange(OVERWRITE_ID_OFF as int, OVERWRITE_KIND_OFF as int) =~= buf@.subrange(
                pos + OVERWRITE_ID_OFF,
                pos + OVERWRITE_KIND_OFF,
            ));
            assert(s[OVERWRITE_KIND_OFF as int] == tag);
        }
        if tag == 0 {
            Some(PermissionOverwrite { allow, deny, id, kind: OverwriteKind::Role })
        } else if tag == 1 {
            Some(PermissionOverwrite { allow, deny, id, kind: OverwriteKind::Member })
        } else {
            None
        }
    }
}

// ------------------------------------------------------------------
// list of packed records: an 8-byte count, then the records back to
// back, record i at offset 8 + i * OVERWRITE_SIZE from the list start
// ------------------------------------------------------------------

pub open spec fn enc_overwrites(l: Seq<PermissionOverwrite>) -> Seq<u8>
    decreases l.len(),
{
    if l.len() == 0 {
        Seq::empty()
    } else {
        enc_overwrite(l[0]) + enc_overwrites(l.drop_first())
    }
}

pub open spec fn enc_overwrite_list(l: Seq<PermissionOverwrite>) -> Seq<u8>
    recommends
        l.len() <= u64::MAX,
{
    spec_u64_to_le_bytes(l.len() as u64) + enc_overwrites(l)
}

pub proof fn lemma_enc_overwrites_len(l: Seq<PermissionOverwrite>)
    ensures
        enc_overwrites(l).len() == OVERWRITE_SIZE * l.len(),
    decreases l.len(),
{
    if l.len() > 0 {
        lemma_enc_overwrites_len(l.drop_first());
        lemma_overwrite_round_trip(l[0]);
    }
}

/// Packed-record layout: inside an encoded run, record `i` occupies
/// exactly the `OVERWRITE_SIZE` bytes starting at `i * OVERWRITE_SIZE`.
pub proof fn lemma_enc_overwrites_index(l: Seq<PermissionOverwrite>, i: int)
    requires
        0 <= i < l.len(),
    ensures
        enc_overwrites(l).subrange(OVERWRITE_SIZE * i, OVERWRITE_SIZE * i + OVERWRITE_SIZE)
            == enc_overwrite(l[i]),
    decreases l.len(),
{
    lemma_enc_overwrites_len(l);
    lemma_enc_overwrites_len(l.drop_first());
    lemma_overwrite_round_trip(l[0]);
    if i == 0 {
        assert(enc_overwrites(l).subrange(0, OVERWRITE_SIZE as int) =~= enc_overwrite(l[0]));
    } else {
        lemma_enc_overwrites_index(l.drop_first(), i - 1);
        assert(enc_overwrites(l).subrange(OVERWRITE_SIZE * i, OVERWRITE_SIZE * i + OVERWRITE_SIZE)
            =~= enc_overwrites(l.drop_first()).subrange(
            OVERWRITE_SIZE * (i - 1),
            OVERWRITE_SIZE * (i - 1) + OVERWRITE_SIZE,
        ));
    }
}

pub open spec fn overwrites_region_valid(s: Seq<u8>) -> bool {
    &&& s.len() % (OVERWRITE_SIZE as nat) == 0
    &&& forall|i: int|
        0 <= i < s.len() / (OVERWRITE_SIZE as nat) ==> valid_overwrite(
            #[trigger] s.subrange(OVERWRITE_SIZE * i, OVERWRITE_SIZE * i + OVERWRITE_SIZE),
        )
}

pub open spec fn dec_overwrites(s: Seq<u8>) -> Seq<PermissionOverwrite> {
    Seq::new(
        s.len() / (OVERWRITE_SIZE as nat),
        |i: int| dec_overwrite(s.subrange(OVERWRITE_SIZE * i, OVERWRITE_SIZE * i + OVERWRITE_SIZE)),
    )
}

pub proof fn lemma_overwrites_round_trip(l: Seq<PermissionOverwrite>)
    ensures
        enc_overwrites(l).len() == OVERWRITE_SIZE * l.len(),
        overwrites_region_valid(enc_overwrites(l)),
        dec_overwrites(enc_overwrites(l)) == l,
{
    lemma_enc_overwrites_len(l);
    assert forall|i: int| 0 <= i < l.len() implies {
        &&& valid_overwrite(
            #[trigger] enc_overwrites(l).subrange(
                OVERWRITE_SIZE * i,
                OVERWRITE_SIZE * i + OVERWRITE_SIZE,
            ),
        )
        &&& dec_overwrites(enc_overwrites(l))[i] == l[i]
    } by {
        lemma_enc_overwrites_index(l, i);
        lemma_overwrite_round_trip(l[i]);
    }
    assert(dec_overwrites(enc_overwrites(l)) =~= l);
}

pub proof fn lemma_enc_overwrites_snoc(l: Seq<PermissionOverwrite>, o: PermissionOverwrite)
    ensures
        enc_overwrites(l.push(o)) == enc_overwrites(l) + enc_overwrite(o),
    decreases l.len(),
{
    if l.len() == 0 {
        assert(l.push(o)[0] == o);
        assert(l.push(o).drop_first() =~= Seq::<PermissionOverwrite>::empty());
        assert(enc_overwrites(Seq::<PermissionOverwrite>::empty()) == Seq::<u8>::empty());
        assert(enc_overwrites(l.push(o)) =~= enc_overwrite(o));
        assert(enc_overwrites(l) + enc_overwrite(o) =~= enc_overwrite(o));
    } else {
        lemma_enc_overwrites_snoc(l.drop_first(), o);
        assert(l.push(o)[0] == l[0]);
        assert(l.push(o).drop_first() =~= l.drop_first().push(o));
        assert(enc_overwrites(l.push(o)) =~= enc_overwrites(l) + enc_overwrite(o));
    }
}

/// Whether a whole override list starts at `off` and lies inside `s`.
pub open spec fn overwrite_list_at_ok(s: Seq<u8>, off: int) -> bool {
    &&& 0 <= off
    &&& off + 8 <= s.len()
    &&& off + 8 + OVERWRITE_SIZE * spec_u64_from_le_bytes(s.subrange(off, off + 8)) <= s.len()
    &&& overwrites_region_valid(
        s.subrange(
            off + 8,
            off + 8 + OVERWRITE_SIZE * spec_u64_from_le_bytes(s.subrange(off, off + 8)),
        ),
    )
}

pub open spec fn overwrite_list_at_end(s: Seq<u8>, off: int) -> int {
    off + 8 + OVERWRITE_SIZE * spec_u64_from_le_bytes(s.subrange(off, off + 8))
}

pub open spec fn overwrite_list_at(s: Seq<u8>, off: int) -> Seq<PermissionOverwrite> {
    dec_overwrites(s.subrange(off + 8, overwrite_list_at_end(s, off)))
}

pub proof fn lemma_overwrite_list_embed(s: Seq<u8>, off: int, l: Seq<PermissionOverwrite>)
    requires
        0 <= off,
        l.len() <= u64::MAX,
        off + enc_overwrite_list(l).len() <= s.len(),
        s.subrange(off, off + enc_overwrite_list(l).len()) == enc_overwrite_list(l),
    ensures
        overwrite_list_at_ok(s, off),
        overwrite_list_at_end(s, off) == off + enc_overwrite_list(l).len(),
        overwrite_list_at(s, off) == l,
{
    lemma_auto_spec_u64_to_from_le_bytes();
    lemma_enc_overwrites_len(l);
    let e = enc_overwrite_list(l);
    assert(spec_u64_to_le_bytes(l.len() as u64).len() == 8);
    assert(s.subrange(off, off + 8) =~= e.take(8));
    assert(e.take(8) =~= spec_u64_to_le_bytes(l.len() as u64));
    assert(spec_u64_from_le_bytes(s.subrange(off, off + 8)) == l.len());
    assert(s.subrange(off + 8, off + 8 + OVERWRITE_SIZE * l.len()) =~= e.skip(8));
    assert(e.skip(8) =~= enc_overwrites(l));
    lemma_overwrites_round_trip(l);
}

/// Appends the encoding of an override list.
pub fn put_overwrite_list(buf: &mut Vec<u8>, l: &Vec<PermissionOverwrite>)
    ensures
        final(buf)@ == old(buf)@ + enc_overwrite_list(l@),
{
    let n: usize = l.len();
    put_u64(buf, n as u64);
    let mut i: usize = 0;
    while i < n
        invariant
            n == l@.len(),
            i <= n,
            buf@ == old(buf)@ + spec_u64_to_le_bytes(n as u64) + enc_overwrites(l@.take(i as int)),
        decreases n - i,
    {
        let o: PermissionOverwrite = *slice_index_get(l.as_slice(), i);
        PermissionOverwriteRkyv::serialize_with(&o, buf);
        proof {
            lemma_enc_overwrites_snoc(l@.take(i as int), l@[i as int]);
            assert(l@.take(i + 1) =~= l@.take(i as int).push(l@[i as int]));
        }
        i = i + 1;
    }
    proof {
        assert(l@.take(n as int) =~= l@);
        assert(buf@ =~= old(buf)@ + enc_overwrite_list(l@));
    }
}

/// Reads the override list starting at `off`: the records and the
/// offset just after them.  `None` when the count runs past the end or
/// a record's kind byte is unknown.
pub fn read_overwrite_list_at(buf: &Vec<u8>, off: usize) -> (r: Option<(
    Vec<PermissionOverwrite>,
    usize,
)>)
    requires
        off <= buf@.len(),
    ensures
        r is Some <==> overwrite_list_at_ok(buf@, off as int),
        r matches Some((l, end)) ==> l@ == overwrite_list_at(buf@, off as int) && end
            == overwrite_list_at_end(buf@, off as int),
{
    let l: usize = buf.len();
    if l - off < 8 {
        return None;
    }
    let n: u64 = read_u64_at(buf, off);
    if n > ((l - off - 8) / OVERWRITE_SIZE) as u64 {
        proof {
            assert(OVERWRITE_SIZE * n > l - off - 8);
        }
        return None;
    }
    let count: usize = n as usize;
    proof {
        assert(OVERWRITE_SIZE * n <= l - off - 8);
    }
    let end: usize = off + 8 + OVERWRITE_SIZE * count;
    let ghost content = buf@.subrange(off + 8, end as int);
    let mut items: Vec<PermissionOverwrite> = Vec::new();
    let mut i: usize = 0;
    while i < count
        invariant
            count == n,
            n == spec_u64_from_le_bytes(buf@.subrange(off as int, off + 8)),
            off + 8 + OVERWRITE_SIZE * count <= buf@.len(),
            end == off + 8 + OVERWRITE_SIZE * count,
            content == buf@.subrange(off + 8, end as int),
            i <= count,
            items@.len() == i,
            forall|j: int|
                0 <= j < i ==> {
                    &&& valid_overwrite(
                        #[trigger] content.subrange(
                            OVERWRITE_SIZE * j,
                            OVERWRITE_SIZE * j + OVERWRITE_SIZE,
                        ),
                    )
                    &&& items@[j] == dec_overwrite(
                        content.subrange(OVERWRITE_SIZE * j, OVERWRITE_SIZE * j + OVERWRITE_SIZE),
                    )
                },
        decreases count - i,
    {
        proof {
            assert(content.subrange(OVERWRITE_SIZE * (i as int), OVERWRITE_SIZE * (i as int)
                + OVERWRITE_SIZE) =~= buf@.subrange(
                off + 8 + OVERWRITE_SIZE * (i as int),
                off + 8 + OVERWRITE_SIZE * (i as int) + OVERWRITE_SIZE,
            ));
        }
        match PermissionOverwriteRkyv::deserialize_with(buf, off + 8 + OVERWRITE_SIZE * i) {
            Some(o) => {
                items.push(o);
            },
            None => {
                proof {
                    assert(!valid_overwrite(
                        content.subrange(
                            OVERWRITE_SIZE * (i as int),
                            OVERWRITE_SIZE * (i as int) + OVERWRITE_SIZE,
                        ),
                    ));
                    assert(content.len() == OVERWRITE_SIZE * count);
                    assert((i as int) < content.len() / (OVERWRITE_SIZE as nat));
                    assert(!overwrites_region_valid(content));
                    assert(spec_u64_from_le_bytes(buf@.subrange(off as int, off + 8)) == n);
                    assert(content == buf@.subrange(
                        off + 8,
                        off + 8 + OVERWRITE_SIZE * spec_u64_from_le_bytes(
                            buf@.subrange(off as int, off + 8),
                        ),
                    ));
                    assert(!overwrite_list_at_ok(buf@, off as int));
                }
                return None;
            },
        }
        i = i + 1;
    }
    proof {
        assert(content.len() == OVERWRITE_SIZE * count);
        assert(content.len() % (OVERWRITE_SIZE as nat) == 0);
        assert(overwrites_region_valid(content));
        assert(items@ =~= dec_overwrites(content));
    }
    Some((items, end))
}

} // verus!
