//! User snapshots: avatar hash, bot flag, discriminator, id and name.
//!
//! A partial-user event only carries a new avatar and discriminator,
//! both fixed-width, so applying it never needs the rewrite path: the
//! two fields are written at their constant offsets and the rest of the
//! archive, the name included, is untouched.

use crate::codec::{
    blob_at, blob_at_end, blob_at_ok, dec_bool, dec_opt_hash, enc_blob, enc_bool, enc_opt_hash,
    lemma_blob_embed, lemma_bool_canonical, lemma_bool_round_trip, lemma_opt_hash_canonical,
    lemma_opt_hash_round_trip, put_blob, put_bool, put_opt_hash, put_u16, put_u64, read_blob_at,
    read_bool_at, read_opt_hash_at, read_u16_at, read_u64_at, valid_bool, valid_opt_hash,
    write_opt_hash_at, write_u16_at, ImageHash, OPT_HASH_LEN,
};
use crate::{CacheError, PatchMode};
use vstd::bytes::*;
use vstd::prelude::*;

verus! {

/// Offset of the bot flag.
pub const USER_BOT_OFF: usize = 18;

/// Offset of the discriminator.
pub const USER_DISCRIM_OFF: usize = 19;

/// Offset of the user id.
pub const USER_ID_OFF: usize = 21;

/// Offset of the name blob; everything before it is fixed-width.
pub const USER_NAME_OFF: usize = 29;

/// Offset of the name content itself, after the length prefix.
pub const USER_NAME_CONTENT_OFF: usize = 37;

/// An owned user snapshot: the fields of a user that the cache retains.
#[derive(Debug, PartialEq, Eq)]
pub struct CachedUser {
    pub avatar: Option<ImageHash>,
    pub bot: bool,
    pub discriminator: u16,
    pub id: u64,
    pub name: Vec<u8>,
}

/// The mathematical value of a user snapshot.
pub struct UserView {
    pub avatar: Option<ImageHash>,
    pub bot: bool,
    pub discriminator: u16,
    pub id: u64,
    pub name: Seq<u8>,
}

impl View for CachedUser {
    type V = UserView;

    open spec fn view(&self) -> UserView {
        UserView {
            avatar: self.avatar,
            bot: self.bot,
            discriminator: self.discriminator,
            id: self.id,
            name: self.name@,
        }
    }
}

/// The fields a partial-user event reports: avatar and discriminator
/// alone, both fixed-width.
pub struct PartialUser {
    pub avatar: Option<ImageHash>,
    pub discriminator: u16,
}

/// The archived byte form of a user snapshot.
pub open spec fn enc_user(u: UserView) -> Seq<u8>
    recommends
        u.name.len() <= u64::MAX,
{
    enc_opt_hash(u.avatar) + enc_bool(u.bot) + spec_u16_to_le_bytes(u.discriminator)
        + spec_u64_to_le_bytes(u.id) + enc_blob(u.name)
}

/// Whether `s` is a well-formed user archive.
pub open spec fn valid_user(s: Seq<u8>) -> bool {
    &&& s.len() >= USER_NAME_CONTENT_OFF
    &&& valid_opt_hash(s.subrange(0, OPT_HASH_LEN as int))
    &&& valid_bool(s.subrange(USER_BOT_OFF as int, USER_DISCRIM_OFF as int))
    &&& blob_at_ok(s, USER_NAME_OFF as int)
    &&& blob_at_end(s, USER_NAME_OFF as int) == s.len()
}

/// The snapshot a well-formed user archive holds.
pub open spec fn dec_user(s: Seq<u8>) -> UserView
    recommends
        valid_user(s),
{
    UserView {
        avatar: dec_opt_hash(s.subrange(0, OPT_HASH_LEN as int)),
        bot: dec_bool(s.subrange(USER_BOT_OFF as int, USER_DISCRIM_OFF as int)),
        discriminator: spec_u16_from_le_bytes(
            s.subrange(USER_DISCRIM_OFF as int, USER_ID_OFF as int),
        ),
        id: spec_u64_from_le_bytes(s.subrange(USER_ID_OFF as int, USER_NAME_OFF as int)),
        name: blob_at(s, USER_NAME_OFF as int),
    }
}

/// Round trip: decoding an encoded user snapshot returns the snapshot
/// unchanged, field for field.
pub proof fn lemma_user_round_trip(u: UserView)
    requires
        u.name.len() <= u64::MAX,
    ensures
        valid_user(enc_user(u)),
        dec_user(enc_user(u)) == u,
        enc_user(u).len() == USER_NAME_CONTENT_OFF + u.name.len(),
{
    lemma_auto_spec_u64_to_from_le_bytes();
    lemma_auto_spec_u16_to_from_le_bytes();
    lemma_opt_hash_round_trip(u.avatar);
    lemma_bool_round_trip(u.bot);
    let s = enc_user(u);
    assert(spec_u16_to_le_bytes(u.discriminator).len() == 2);
    assert(spec_u64_to_le_bytes(u.id).len() == 8);
    assert(spec_u64_to_le_bytes(u.name.len() as u64).len() == 8);
    assert(s.subrange(0, OPT_HASH_LEN as int) =~= enc_opt_hash(u.avatar));
    assert(s.subrange(USER_BOT_OFF as int, USER_DISCRIM_OFF as int) =~= enc_bool(u.bot));
    assert(s.subrange(USER_DISCRIM_OFF as int, USER_ID_OFF as int) =~= spec_u16_to_le_bytes(
        u.discriminator,
    ));
    assert(s.subrange(USER_ID_OFF as int, USER_NAME_OFF as int) =~= spec_u64_to_le_bytes(u.id));
    assert(s.subrange(USER_NAME_OFF as int, USER_NAME_OFF + 8 + u.name.len()) =~= enc_blob(u.name));
    lemma_blob_embed(s, USER_NAME_OFF as int, u.name);
}

/// Canonical form: a well-formed user archive is exactly the encoding
/// of the snapshot it holds.
pub proof fn lemma_user_canonical(s: Seq<u8>)
    requires
        valid_user(s),
    ensures
        dec_user(s).name.len() <= u64::MAX,
        enc_user(dec_user(s)) == s,
{
    lemma_auto_spec_u64_to_from_le_bytes();
    lemma_auto_spec_u16_to_from_le_bytes();
    let u = dec_user(s);
    lemma_opt_hash_canonical(s.subrange(0, OPT_HASH_LEN as int));
    lemma_bool_canonical(s.subrange(USER_BOT_OFF as int, USER_DISCRIM_OFF as int));
    assert(spec_u16_to_le_bytes(u.discriminator) == s.subrange(
        USER_DISCRIM_OFF as int,
        USER_ID_OFF as int,
    ));
    assert(spec_u64_to_le_bytes(u.id) == s.subrange(USER_ID_OFF as int, USER_NAME_OFF as int));
    assert(u.name.len() == s.len() - USER_NAME_CONTENT_OFF);
    assert(spec_u64_to_le_bytes(u.name.len() as u64) == s.subrange(
        USER_NAME_OFF as int,
        USER_NAME_CONTENT_OFF as int,
    )) by {
        assert(spec_u64_from_le_bytes(
            s.subrange(USER_NAME_OFF as int, USER_NAME_CONTENT_OFF as int),
        ) == u.name.len());
        assert(spec_u64_to_le_bytes(
            spec_u64_from_le_bytes(s.subrange(USER_NAME_OFF as int, USER_NAME_CONTENT_OFF as int)),
        ) == s.subrange(USER_NAME_OFF as int, USER_NAME_CONTENT_OFF as int));
    }
    assert(enc_user(u) =~= s);
}

/// The snapshot after a partial-user event: avatar and discriminator
/// from the event, everything else from the current archive.
pub open spec fn user_apply_partial(u: UserView, p: PartialUser) -> UserView {
    UserView {
        avatar: p.avatar,
        bot: u.bot,
        discriminator: p.discriminator,
        id: u.id,
        name: u.name,
    }
}

/// The byte-level effect of the in-place path: avatar and discriminator
/// replaced at their constant offsets, everything else untouched.
pub open spec fn user_in_place(s: Seq<u8>, p: PartialUser) -> Seq<u8> {
    enc_opt_hash(p.avatar) + s.subrange(USER_BOT_OFF as int, USER_DISCRIM_OFF as int)
        + spec_u16_to_le_bytes(p.discriminator) + s.skip(USER_ID_OFF as int)
}

/// In-place-patch equivalence for partial-user events: the in-place
/// byte surgery produces exactly the encoding of the patched snapshot,
/// the same bytes a decode-mutate-re-encode round trip would produce.
pub proof fn lemma_user_in_place_matches_rewrite(s: Seq<u8>, p: PartialUser)
    requires
        valid_user(s),
    ensures
        user_in_place(s, p) == enc_user(user_apply_partial(dec_user(s), p)),
{
    lemma_user_canonical(s);
    let u = dec_user(s);
    assert(enc_user(u) == s);
    lemma_opt_hash_round_trip(u.avatar);
    lemma_bool_round_trip(u.bot);
    lemma_auto_spec_u64_to_from_le_bytes();
    lemma_auto_spec_u16_to_from_le_bytes();
    assert(spec_u16_to_le_bytes(u.discriminator).len() == 2);
    assert(spec_u64_to_le_bytes(u.id).len() == 8);
    assert(s.subrange(USER_BOT_OFF as int, USER_DISCRIM_OFF as int) =~= enc_bool(u.bot));
    assert(s.skip(USER_ID_OFF as int) =~= spec_u64_to_le_bytes(u.id) + enc_blob(u.name));
    assert(user_in_place(s, p) =~= enc_user(user_apply_partial(u, p)));
}

/// No-op stability for partial-user events: an event matching the
/// archived avatar and discriminator leaves the archive byte for byte
/// identical.
pub proof fn lemma_user_noop_stable(s: Seq<u8>, p: PartialUser)
    requires
        valid_user(s),
        p.avatar == dec_user(s).avatar,
        p.discriminator == dec_user(s).discriminator,
    ensures
        user_in_place(s, p) == s,
{
    lemma_user_in_place_matches_rewrite(s, p);
    lemma_user_canonical(s);
}

impl CachedUser {
    /// Encodes the snapshot into a fresh archive.
    pub fn encode(&self) -> (r: Vec<u8>)
        ensures
            r@ == enc_user(self@),
            valid_user(r@),
            dec_user(r@) == self@,
    {
        let mut buf: Vec<u8> = Vec::new();
        put_opt_hash(&mut buf, &self.avatar);
        put_bool(&mut buf, self.bot);
        put_u16(&mut buf, self.discriminator);
        put_u64(&mut buf, self.id);
        put_blob(&mut buf, self.name.as_slice());
        let n: usize = self.name.len();
        proof {
            assert(self@.name.len() == n);
            assert(buf@ =~= enc_user(self@));
            lemma_user_round_trip(self@);
        }
        buf
    }

    /// Decodes a user archive; fails exactly on archives no snapshot
    /// encodes to.
    pub fn decode(buf: &Vec<u8>) -> (r: Result<CachedUser, CacheError>)
        ensures
            r is Ok <==> valid_user(buf@),
            r matches Ok(u) ==> u@ == dec_user(buf@),
            r is Err ==> r == Err::<CachedUser, CacheError>(CacheError::Decode),
    {
        if buf.len() < USER_NAME_CONTENT_OFF {
            return Err(CacheError::Decode);
        }
        let avatar: Option<ImageHash> = match read_opt_hash_at(buf, 0) {
            Some(v) => v,
            None => {
                return Err(CacheError::Decode);
            },
        };
        let bot: bool = match read_bool_at(buf, USER_BOT_OFF) {
            Some(v) => v,
            None => {
                return Err(CacheError::Decode);
            },
        };
        let discriminator: u16 = read_u16_at(buf, USER_DISCRIM_OFF);
        let id: u64 = read_u64_at(buf, USER_ID_OFF);
        match read_blob_at(buf, USER_NAME_OFF) {
            Some((name, end)) => {
                if end != buf.len() {
                    return Err(CacheError::Decode);
                }
                Ok(CachedUser { avatar, bot, discriminator, id, name })
            },
            None => Err(CacheError::Decode),
        }
    }

    /// Applies a partial-user event to an existing archive.  The event
    /// carries no variable-length field, so the patch always goes in
    /// place; a malformed archive is reported and left untouched.
    pub fn update_via_partial(archive: &mut Vec<u8>, partial: &PartialUser) -> (r: Result<
        PatchMode,
        CacheError,
    >)
        ensures
            valid_user(old(archive)@) ==> r == Ok::<PatchMode, CacheError>(PatchMode::InPlace)
                && final(archive)@ == enc_user(
                user_apply_partial(dec_user(old(archive)@), *partial),
            ),
            !valid_user(old(archive)@) ==> r == Err::<PatchMode, CacheError>(CacheError::Decode)
                && final(archive)@ == old(archive)@,
    {
        let l: usize = archive.len();
        if l < USER_NAME_CONTENT_OFF {
            return Err(CacheError::Decode);
        }
        if read_opt_hash_at(archive, 0).is_none() {
            return Err(CacheError::Decode);
        }
        if read_bool_at(archive, USER_BOT_OFF).is_none() {
            return Err(CacheError::Decode);
        }
        let stated: u64 = read_u64_at(archive, USER_NAME_OFF);
        if stated != (l - USER_NAME_CONTENT_OFF) as u64 {
            proof {
                assert(!valid_user(archive@));
            }
            return Err(CacheError::Decode);
        }
        proof {
            assert(valid_user(archive@));
        }
        write_opt_hash_at(archive, 0, &partial.avatar);
        write_u16_at(archive, USER_DISCRIM_OFF, partial.discriminator);
        proof {
            lemma_opt_hash_round_trip(partial.avatar);
            lemma_auto_spec_u16_to_from_le_bytes();
            assert(spec_u16_to_le_bytes(partial.discriminator).len() == 2);
            assert(archive@ =~= user_in_place(old(archive)@, *partial));
            lemma_user_in_place_matches_rewrite(old(archive)@, *partial);
        }
        Ok(PatchMode::InPlace)
    }
}

} // verus!
