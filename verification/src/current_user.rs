//! Current-user snapshots: avatar hash, discriminator, id and name.
//!
//! The current user has no update hook; its archive is only ever
//! created whole from the live object.

use crate::codec::{
    blob_at, blob_at_end, blob_at_ok, dec_opt_hash, enc_blob, enc_opt_hash, lemma_blob_embed,
    lemma_opt_hash_canonical, lemma_opt_hash_round_trip, put_blob, put_opt_hash, put_u16, put_u64,
    read_blob_at, read_opt_hash_at, read_u16_at, read_u64_at, valid_opt_hash, ImageHash,
    OPT_HASH_LEN,
};
use crate::CacheError;
use vstd::bytes::*;
use vstd::prelude::*;

verus! {

/// Offset of the discriminator.
pub const CURRENT_USER_DISCRIM_OFF: usize = 18;

/// Offset of the user id.
pub const CURRENT_USER_ID_OFF: usize = 20;

/// Offset of the name blob; everything before it is fixed-width.
pub const CURRENT_USER_NAME_OFF: usize = 28;

/// Offset of the name content itself, after the length prefix.
pub const CURRENT_USER_NAME_CONTENT_OFF: usize = 36;

/// An owned current-user snapshot.
#[derive(Debug, PartialEq, Eq)]
pub struct CachedCurrentUser {
    pub avatar: Option<ImageHash>,
    pub discriminator: u16,
    pub id: u64,
    pub name: Vec<u8>,
}

/// The mathematical value of a current-user snapshot.
pub struct CurrentUserView {
    pub avatar: Option<ImageHash>,
    pub discriminator: u16,
    pub id: u64,
    pub name: Seq<u8>,
}

impl View for CachedCurrentUser {
    type V = CurrentUserView;

    open spec fn view(&self) -> CurrentUserView {
        CurrentUserView {
            avatar: self.avatar,
            discriminator: self.discriminator,
            id: self.id,
            name: self.name@,
        }
    }
}

/// The archived byte form of a current-user snapshot.
pub open spec fn enc_current_user(u: CurrentUserView) -> Seq<u8>
    recommends
        u.name.len() <= u64::MAX,
{
    enc_opt_hash(u.avatar) + spec_u16_to_le_bytes(u.discriminator) + spec_u64_to_le_bytes(u.id)
        + enc_blob(u.name)
}

/// Whether `s` is a well-formed current-user archive.
pub open spec fn valid_current_user(s: Seq<u8>) -> bool {
    &&& s.len() >= CURRENT_USER_NAME_CONTENT_OFF
    &&& valid_opt_hash(s.subrange(0, OPT_HASH_LEN as int))
    &&& blob_at_ok(s, CURRENT_USER_NAME_OFF as int)
    &&& blob_at_end(s, CURRENT_USER_NAME_OFF as int) == s.len()
}

/// The snapshot a well-formed current-user archive holds.
pub open spec fn dec_current_user(s: Seq<u8>) -> CurrentUserView
    recommends
        valid_current_user(s),
{
    CurrentUserView {
        avatar: dec_opt_hash(s.subrange(0, OPT_HASH_LEN as int)),
        discriminator: spec_u16_from_le_bytes(
            s.subrange(CURRENT_USER_DISCRIM_OFF as int, CURRENT_USER_ID_OFF as int),
        ),
        id: spec_u64_from_le_bytes(
            s.subrange(CURRENT_USER_ID_OFF as int, CURRENT_USER_NAME_OFF as int),
        ),
        name: blob_at(s, CURRENT_USER_NAME_OFF as int),
    }
}

/// Round trip: decoding an encoded current-user snapshot returns the
/// snapshot unchanged, field for field.
pub proof fn lemma_current_user_round_trip(u: CurrentUserView)
    requires
        u.name.len() <= u64::MAX,
    ensures
        valid_current_user(enc_current_user(u)),
        dec_current_user(enc_current_user(u)) == u,
        enc_current_user(u).len() == CURRENT_USER_NAME_CONTENT_OFF + u.name.len(),
{
    lemma_auto_spec_u64_to_from_le_bytes();
    lemma_auto_spec_u16_to_from_le_bytes();
    lemma_opt_hash_round_trip(u.avatar);
    let s = enc_current_user(u);
    assert(spec_u16_to_le_bytes(u.discriminator).len() == 2);
    assert(spec_u64_to_le_bytes(u.id).len() == 8);
    assert(spec_u64_to_le_bytes(u.name.len() as u64).len() == 8);
    assert(s.subrange(0, OPT_HASH_LEN as int) =~= enc_opt_hash(u.avatar));
    assert(s.subrange(CURRENT_USER_DISCRIM_OFF as int, CURRENT_USER_ID_OFF as int)
        =~= spec_u16_to_le_bytes(u.discriminator));
    assert(s.subrange(CURRENT_USER_ID_OFF as int, CURRENT_USER_NAME_OFF as int)
        =~= spec_u64_to_le_bytes(u.id));
    assert(s.subrange(CURRENT_USER_NAME_OFF as int, CURRENT_USER_NAME_OFF + 8 + u.name.len())
        =~= enc_blob(u.name));
    lemma_blob_embed(s, CURRENT_USER_NAME_OFF as int, u.name);
}

/// Canonical form: a well-formed current-user archive is exactly the
/// encoding of the snapshot it holds.
pub proof fn lemma_current_user_canonical(s: Seq<u8>)
    requires
        valid_current_user(s),
    ensures
        dec_current_user(s).name.len() <= u64::MAX,
        enc_current_user(dec_current_user(s)) == s,
{
    lemma_auto_spec_u64_to_from_le_bytes();
    lemma_auto_spec_u16_to_from_le_bytes();
    let u = dec_current_user(s);
    lemma_opt_hash_canonical(s.subrange(0, OPT_HASH_LEN as int));
    assert(spec_u16_to_le_bytes(u.discriminator) == s.subrange(
        CURRENT_USER_DISCRIM_OFF as int,
        CURRENT_USER_ID_OFF as int,
    ));
    assert(spec_u64_to_le_bytes(u.id) == s.subrange(
        CURRENT_USER_ID_OFF as int,
        CURRENT_USER_NAME_OFF as int,
    ));
    assert(u.name.len() == s.len() - CURRENT_USER_NAME_CONTENT_OFF);
    assert(spec_u64_to_le_bytes(u.name.len() as u64) == s.subrange(
        CURRENT_USER_NAME_OFF as int,
        CURRENT_USER_NAME_CONTENT_OFF as int,
    )) by {
        assert(spec_u64_from_le_bytes(
            s.subrange(CURRENT_USER_NAME_OFF as int, CURRENT_USER_NAME_CONTENT_OFF as int),
        ) == u.name.len());
        assert(spec_u64_to_le_bytes(
            spec_u64_from_le_bytes(
                s.subrange(CURRENT_USER_NAME_OFF as int, CURRENT_USER_NAME_CONTENT_OFF as int),
            ),
        ) == s.subrange(CURRENT_USER_NAME_OFF as int, CURRENT_USER_NAME_CONTENT_OFF as int));
    }
    assert(enc_current_user(u) =~= s);
}

impl CachedCurrentUser {
    /// Encodes the snapshot into a fresh archive.
    pub fn encode(&self) -> (r: Vec<u8>)
        ensures
            r@ == enc_current_user(self@),
            valid_current_user(r@),
            dec_current_user(r@) == self@,
    {
        let mut buf: Vec<u8> = Vec::new();
        put_opt_hash(&mut buf, &self.avatar);
        put_u16(&mut buf, self.discriminator);
        put_u64(&mut buf, self.id);
        put_blob(&mut buf, self.name.as_slice());
        let n: usize = self.name.len();
        proof {
            assert(self@.name.len() == n);
            assert(buf@ =~= enc_current_user(self@));
            lemma_current_user_round_trip(self@);
        }
        buf
    }

    /// Decodes a current-user archive; fails exactly on archives no
    /// snapshot encodes to.
    pub fn decode(buf: &Vec<u8>) -> (r: Result<CachedCurrentUser, CacheError>)
        ensures
            r is Ok <==> valid_current_user(buf@),
            r matches Ok(u) ==> u@ == dec_current_user(buf@),
            r is Err ==> r == Err::<CachedCurrentUser, CacheError>(CacheError::Decode),
    {
        if buf.len() < CURRENT_USER_NAME_CONTENT_OFF {
            return Err(CacheError::Decode);
        }
        let avatar: Option<ImageHash> = match read_opt_hash_at(buf, 0) {
            Some(v) => v,
            None => {
                return Err(CacheError::Decode);
            },
        };
        let discriminator: u16 = read_u16_at(buf, CURRENT_USER_DISCRIM_OFF);
        let id: u64 = read_u64_at(buf, CURRENT_USER_ID_OFF);
        match read_blob_at(buf, CURRENT_USER_NAME_OFF) {
            Some((name, end)) => {
                if end != buf.len() {
                    return Err(CacheError::Decode);
                }
                Ok(CachedCurrentUser { avatar, discriminator, id, name })
            },
            None => Err(CacheError::Decode),
        }
    }
}

} // verus!
