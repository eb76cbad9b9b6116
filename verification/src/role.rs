//! Role snapshots: id, name, permission bit set and position.
//!
//! Role names have no documented length limit, so a role archive always
//! lives in a growable buffer.  Roles have no update hook; their
//! archives are only ever created whole from the live object.

use crate::codec::{
    blob_at, blob_at_end, blob_at_ok, enc_blob, enc_i64, dec_i64, lemma_blob_embed,
    lemma_i64_canonical, lemma_i64_round_trip, put_blob, put_i64, put_u64, read_blob_at,
    read_i64_at, read_u64_at,
};
use crate::CacheError;
use vstd::bytes::*;
use vstd::prelude::*;

verus! {

/// Offset of the permission bit set.
pub const ROLE_PERMS_OFF: usize = 8;

/// Offset of the position.
pub const ROLE_POSITION_OFF: usize = 16;

/// Offset of the name blob; everything before it is fixed-width.
pub const ROLE_NAME_OFF: usize = 24;

/// Offset of the name content itself, after the length prefix.
pub const ROLE_NAME_CONTENT_OFF: usize = 32;

/// An owned role snapshot.
#[derive(Debug, PartialEq, Eq)]
pub struct CachedRole {
    pub id: u64,
    pub name: Vec<u8>,
    pub permissions: u64,
    pub position: i64,
}

/// The mathematical value of a role snapshot.
pub struct RoleView {
    pub id: u64,
    pub name: Seq<u8>,
    pub permissions: u64,
    pub position: i64,
}

impl View for CachedRole {
    type V = RoleView;

    open spec fn view(&self) -> RoleView {
        RoleView {
            id: self.id,
            name: self.name@,
            permissions: self.permissions,
            position: self.position,
        }
    }
}

/// The archived byte form of a role snapshot.
pub open spec fn enc_role(r: RoleView) -> Seq<u8>
    recommends
        r.name.len() <= u64::MAX,
{
    spec_u64_to_le_bytes(r.id) + spec_u64_to_le_bytes(r.permissions) + enc_i64(r.position)
        + enc_blob(r.name)
}

/// Whether `s` is a well-formed role archive.
pub open spec fn valid_role(s: Seq<u8>) -> bool {
    &&& s.len() >= ROLE_NAME_CONTENT_OFF
    &&& blob_at_ok(s, ROLE_NAME_OFF as int)
    &&& blob_at_end(s, ROLE_NAME_OFF as int) == s.len()
}

/// The snapshot a well-formed role archive holds.
pub open spec fn dec_role(s: Seq<u8>) -> RoleView
    recommends
        valid_role(s),
{
    RoleView {
        id: spec_u64_from_le_bytes(s.subrange(0, ROLE_PERMS_OFF as int)),
        permissions: spec_u64_from_le_bytes(
            s.subrange(ROLE_PERMS_OFF as int, ROLE_POSITION_OFF as int),
        ),
        position: dec_i64(s.subrange(ROLE_POSITION_OFF as int, ROLE_NAME_OFF as int)),
        name: blob_at(s, ROLE_NAME_OFF as int),
    }
}

/// Round trip: decoding an encoded role snapshot returns the snapshot
/// unchanged, field for field.
pub proof fn lemma_role_round_trip(r: RoleView)
    requires
        r.name.len() <= u64::MAX,
    ensures
        valid_role(enc_role(r)),
        dec_role(enc_role(r)) == r,
        enc_role(r).len() == ROLE_NAME_CONTENT_OFF + r.name.len(),
{
    lemma_auto_spec_u64_to_from_le_bytes();
    lemma_i64_round_trip(r.position);
    let s = enc_role(r);
    assert(spec_u64_to_le_bytes(r.id).len() == 8);
    assert(spec_u64_to_le_bytes(r.permissions).len() == 8);
    assert(spec_u64_to_le_bytes(r.name.len() as u64).len() == 8);
    assert(s.subrange(0, ROLE_PERMS_OFF as int) =~= spec_u64_to_le_bytes(r.id));
    assert(s.subrange(ROLE_PERMS_OFF as int, ROLE_POSITION_OFF as int) =~= spec_u64_to_le_bytes(
        r.permissions,
    ));
    assert(s.subrange(ROLE_POSITION_OFF as int, ROLE_NAME_OFF as int) =~= enc_i64(r.position));
    assert(s.subrange(ROLE_NAME_OFF as int, ROLE_NAME_OFF + 8 + r.name.len()) =~= enc_blob(r.name));
    lemma_blob_embed(s, ROLE_NAME_OFF as int, r.name);
}

/// Canonical form: a well-formed role archive is exactly the encoding
/// of the snapshot it holds.
pub proof fn lemma_role_canonical(s: Seq<u8>)
    requires
        valid_role(s),
    ensures
        dec_role(s).name.len() <= u64::MAX,
        enc_role(dec_role(s)) == s,
{
    lemma_auto_spec_u64_to_from_le_bytes();
    let r = dec_role(s);
    lemma_i64_canonical(s.subrange(ROLE_POSITION_OFF as int, ROLE_NAME_OFF as int));
    assert(spec_u64_to_le_bytes(r.id) == s.subrange(0, ROLE_PERMS_OFF as int));
    assert(spec_u64_to_le_bytes(r.permissions) == s.subrange(
        ROLE_PERMS_OFF as int,
        ROLE_POSITION_OFF as int,
    ));
    assert(r.name.len() == s.len() - ROLE_NAME_CONTENT_OFF);
    assert(spec_u64_to_le_bytes(r.name.len() as u64) == s.subrange(
        ROLE_NAME_OFF as int,
        ROLE_NAME_CONTENT_OFF as int,
    )) by {
        assert(spec_u64_from_le_bytes(
            s.subrange(ROLE_NAME_OFF as int, ROLE_NAME_CONTENT_OFF as int),
        ) == r.name.len());
        assert(spec_u64_to_le_bytes(
            spec_u64_from_le_bytes(s.subrange(ROLE_NAME_OFF as int, ROLE_NAME_CONTENT_OFF as int)),
        ) == s.subrange(ROLE_NAME_OFF as int, ROLE_NAME_CONTENT_OFF as int));
    }
    assert(enc_role(r) =~= s);
}

impl CachedRole {
    /// Encodes the snapshot into a fresh archive.
    pub fn encode(&self) -> (r: Vec<u8>)
        ensures
            r@ == enc_role(self@),
            valid_role(r@),
            dec_role(r@) == self@,
    {
        let mut buf: Vec<u8> = Vec::new();
        put_u64(&mut buf, self.id);
        put_u64(&mut buf, self.permissions);
        put_i64(&mut buf, self.position);
        put_blob(&mut buf, self.name.as_slice());
        let n: usize = self.name.len();
        proof {
            assert(self@.name.len() == n);
            assert(buf@ =~= enc_role(self@));
            lemma_role_round_trip(self@);
        }
        buf
    }

    /// Decodes a role archive; fails exactly on archives no snapshot
    /// encodes to.
    pub fn decode(buf: &Vec<u8>) -> (r: Result<CachedRole, CacheError>)
        ensures
            r is Ok <==> valid_role(buf@),
            r matches Ok(v) ==> v@ == dec_role(buf@),
            r is Err ==> r == Err::<CachedRole, CacheError>(CacheError::Decode),
    {
        if buf.len() < ROLE_NAME_CONTENT_OFF {
            return Err(CacheError::Decode);
        }
        let id: u64 = read_u64_at(buf, 0);
        let permissions: u64 = read_u64_at(buf, ROLE_PERMS_OFF);
        let position: i64 = read_i64_at(buf, ROLE_POSITION_OFF);
        match read_blob_at(buf, ROLE_NAME_OFF) {
            Some((name, end)) => {
                if end != buf.len() {
                    return Err(CacheError::Decode);
                }
                Ok(CachedRole { id, name, permissions, position })
            },
            None => Err(CacheError::Decode),
        }
    }
}

} // verus!
