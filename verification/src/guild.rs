//! Guild snapshots: icon hash, id, name, owner id and an optional
//! permission bit set.
//!
//! The name is the only variable-length field.  A guild update whose
//! name matches the archived name is applied in place: the icon, id,
//! owner id and permission fields are rewritten at their constant
//! offsets and the name region is never touched.  Any other update
//! decodes the archive, applies every field and re-encodes the whole
//! snapshot.

use crate::codec::{
    blob_at, blob_at_end, blob_at_ok, clone_bytes, dec_opt_hash, dec_opt_u64, enc_blob,
    enc_opt_hash, enc_opt_u64, lemma_blob_embed, lemma_opt_hash_canonical,
    lemma_opt_hash_round_trip, lemma_opt_u64_canonical, lemma_opt_u64_round_trip, put_blob,
    put_opt_hash, put_opt_u64, put_u64, read_blob_at, read_opt_hash_at, read_opt_u64_at,
    read_u64_at, tail_eq, valid_opt_hash, valid_opt_u64, write_opt_hash_at, write_opt_u64_at,
    write_u64_at, ImageHash, OPT_HASH_LEN,
};
use crate::{CacheError, PatchMode};
use vstd::bytes::*;
use vstd::prelude::*;
use vstd::slice::slice_subrange;

verus! {

/// Offset of the guild id field.
pub const GUILD_ID_OFF: usize = 18;

/// Offset of the owner id field.
pub const GUILD_OWNER_OFF: usize = 26;

/// Offset of the optional permission bit set.
pub const GUILD_PERMS_OFF: usize = 34;

/// Offset of the name blob; everything before it is fixed-width.
pub const GUILD_NAME_OFF: usize = 43;

/// Offset of the name content itself, after the length prefix.
pub const GUILD_NAME_CONTENT_OFF: usize = 51;

/// An owned guild snapshot: the fields of a guild that the cache
/// retains.
#[derive(Debug, PartialEq, Eq)]
pub struct CachedGuild {
    pub icon: Option<ImageHash>,
    pub id: u64,
    pub name: Vec<u8>,
    pub owner_id: u64,
    pub permissions: Option<u64>,
}

/// The mathematical value of a guild snapshot.
pub struct GuildView {
    pub icon: Option<ImageHash>,
    pub id: u64,
    pub name: Seq<u8>,
    pub owner_id: u64,
    pub permissions: Option<u64>,
}

impl View for CachedGuild {
    type V = GuildView;

    open spec fn view(&self) -> GuildView {
        GuildView {
            icon: self.icon,
            id: self.id,
            name: self.name@,
            owner_id: self.owner_id,
            permissions: self.permissions,
        }
    }
}

/// The archived byte form of a guild snapshot: fixed-width fields at
/// constant offsets, then the name blob.
pub open spec fn enc_guild(g: GuildView) -> Seq<u8>
    recommends
        g.name.len() <= u64::MAX,
{
    enc_opt_hash(g.icon) + spec_u64_to_le_bytes(g.id) + spec_u64_to_le_bytes(g.owner_id)
        + enc_opt_u64(g.permissions) + enc_blob(g.name)
}

/// Whether `s` is a well-formed guild archive.  Well-formed archives
/// are exactly the encodings of guild snapshots.
pub open spec fn valid_guild(s: Seq<u8>) -> bool {
    &&& s.len() >= GUILD_NAME_CONTENT_OFF
    &&& valid_opt_hash(s.subrange(0, OPT_HASH_LEN as int))
    &&& valid_opt_u64(s.subrange(GUILD_PERMS_OFF as int, GUILD_NAME_OFF as int))
    &&& blob_at_ok(s, GUILD_NAME_OFF as int)
    &&& blob_at_end(s, GUILD_NAME_OFF as int) == s.len()
}

/// The snapshot a well-formed guild archive holds.
pub open spec fn dec_guild(s: Seq<u8>) -> GuildView
    recommends
        valid_guild(s),
{
    GuildView {
        icon: dec_opt_hash(s.subrange(0, OPT_HASH_LEN as int)),
        id: spec_u64_from_le_bytes(s.subrange(GUILD_ID_OFF as int, GUILD_OWNER_OFF as int)),
        owner_id: spec_u64_from_le_bytes(
            s.subrange(GUILD_OWNER_OFF as int, GUILD_PERMS_OFF as int),
        ),
        permissions: dec_opt_u64(s.subrange(GUILD_PERMS_OFF as int, GUILD_NAME_OFF as int)),
        name: blob_at(s, GUILD_NAME_OFF as int),
    }
}

/// Round trip: decoding an encoded guild snapshot returns the snapshot
/// unchanged, field for field.
pub proof fn lemma_guild_round_trip(g: GuildView)
    requires
        g.name.len() <= u64::MAX,
    ensures
        valid_guild(enc_guild(g)),
        dec_guild(enc_guild(g)) == g,
        enc_guild(g).len() == GUILD_NAME_CONTENT_OFF + g.name.len(),
{
    lemma_auto_spec_u64_to_from_le_bytes();
    lemma_opt_hash_round_trip(g.icon);
    lemma_opt_u64_round_trip(g.permissions);
    let s = enc_guild(g);
    assert(spec_u64_to_le_bytes(g.id).len() == 8);
    assert(spec_u64_to_le_bytes(g.owner_id).len() == 8);
    assert(spec_u64_to_le_bytes(g.name.len() as u64).len() == 8);
    assert(s.subrange(0, OPT_HASH_LEN as int) =~= enc_opt_hash(g.icon));
    assert(s.subrange(GUILD_ID_OFF as int, GUILD_OWNER_OFF as int) =~= spec_u64_to_le_bytes(g.id));
    assert(s.subrange(GUILD_OWNER_OFF as int, GUILD_PERMS_OFF as int) =~= spec_u64_to_le_bytes(
        g.owner_id,
    ));
    assert(s.subrange(GUILD_PERMS_OFF as int, GUILD_NAME_OFF as int) =~= enc_opt_u64(
        g.permissions,
    ));
    assert(s.subrange(GUILD_NAME_OFF as int, GUILD_NAME_OFF + 8 + g.name.len()) =~= enc_blob(
        g.name,
    ));
    lemma_blob_embed(s, GUILD_NAME_OFF as int, g.name);
}

/// Canonical form: a well-formed guild archive is exactly the encoding
/// of the snapshot it holds.
pub proof fn lemma_guild_canonical(s: Seq<u8>)
    requires
        valid_guild(s),
    ensures
        dec_guild(s).name.len() <= u64::MAX,
        enc_guild(dec_guild(s)) == s,
{
    lemma_auto_spec_u64_to_from_le_bytes();
    let g = dec_guild(s);
    lemma_opt_hash_canonical(s.subrange(0, OPT_HASH_LEN as int));
    lemma_opt_u64_canonical(s.subrange(GUILD_PERMS_OFF as int, GUILD_NAME_OFF as int));
    assert(spec_u64_to_le_bytes(g.id) == s.subrange(GUILD_ID_OFF as int, GUILD_OWNER_OFF as int));
    assert(spec_u64_to_le_bytes(g.owner_id) == s.subrange(
        GUILD_OWNER_OFF as int,
        GUILD_PERMS_OFF as int,
    ));
    assert(g.name.len() == s.len() - GUILD_NAME_CONTENT_OFF);
    assert(spec_u64_to_le_bytes(g.name.len() as u64) == s.subrange(
        GUILD_NAME_OFF as int,
        GUILD_NAME_CONTENT_OFF as int,
    )) by {
        assert(spec_u64_from_le_bytes(
            s.subrange(GUILD_NAME_OFF as int, GUILD_NAME_CONTENT_OFF as int),
        ) == g.name.len());
        assert(spec_u64_to_le_bytes(
            spec_u64_from_le_bytes(
                s.subrange(GUILD_NAME_OFF as int, GUILD_NAME_CONTENT_OFF as int),
            ),
        ) == s.subrange(GUILD_NAME_OFF as int, GUILD_NAME_CONTENT_OFF as int));
    }
    assert(enc_guild(g) =~= s);
}

impl CachedGuild {
    /// Encodes the snapshot into a fresh archive.
    pub fn encode(&self) -> (r: Vec<u8>)
        ensures
            r@ == enc_guild(self@),
            valid_guild(r@),
            dec_guild(r@) == self@,
    {
        let mut buf: Vec<u8> = Vec::new();
        put_opt_hash(&mut buf, &self.icon);
        put_u64(&mut buf, self.id);
        put_u64(&mut buf, self.owner_id);
        put_opt_u64(&mut buf, self.permissions);
        put_blob(&mut buf, self.name.as_slice());
        let n: usize = self.name.len();
        proof {
            assert(self@.name.len() == n);
            assert(buf@ =~= enc_guild(self@));
            lemma_guild_round_trip(self@);
        }
        buf
    }

    /// Decodes a guild archive; fails exactly on archives no snapshot
    /// encodes to.
    pub fn decode(buf: &Vec<u8>) -> (r: Result<CachedGuild, CacheError>)
        ensures
            r is Ok <==> valid_guild(buf@),
            r matches Ok(g) ==> g@ == dec_guild(buf@),
            r is Err ==> r == Err::<CachedGuild, CacheError>(CacheError::Decode),
    {
        if buf.len() < GUILD_NAME_CONTENT_OFF {
            return Err(CacheError::Decode);
        }
        let icon: Option<ImageHash> = match read_opt_hash_at(buf, 0) {
            Some(v) => v,
            None => {
                return Err(CacheError::Decode);
            },
        };
        let id: u64 = read_u64_at(buf, GUILD_ID_OFF);
        let owner_id: u64 = read_u64_at(buf, GUILD_OWNER_OFF);
        let permissions: Option<u64> = match read_opt_u64_at(buf, GUILD_PERMS_OFF) {
            Some(v) => v,
            None => {
                return Err(CacheError::Decode);
            },
        };
        match read_blob_at(buf, GUILD_NAME_OFF) {
            Some((name, end)) => {
                if end != buf.len() {
                    return Err(CacheError::Decode);
                }
                Ok(CachedGuild { icon, id, name, owner_id, permissions })
            },
            None => Err(CacheError::Decode),
        }
    }

    /// Sets every field to the value the update event carries; the
    /// mutation step of the rewrite path.
    pub fn apply_update(&mut self, u: &CachedGuild)
        ensures
            final(self)@ == u@,
    {
        self.icon = u.icon;
        self.id = u.id;
        self.name = clone_bytes(&u.name);
        self.owner_id = u.owner_id;
        self.permissions = u.permissions;
    }

    /// Applies a guild update event to an existing archive: in place
    /// when the name is unchanged, by a full rewrite otherwise.  Either
    /// way the result is exactly the encoding of the updated snapshot;
    /// a malformed archive is reported and left untouched.
    pub fn update(archive: &mut Vec<u8>, update: &CachedGuild) -> (r: Result<
        PatchMode,
        CacheError,
    >)
        ensures
            valid_guild(old(archive)@) ==> r is Ok && final(archive)@ == enc_guild(update@),
            valid_guild(old(archive)@) ==> (r == Ok::<PatchMode, CacheError>(PatchMode::InPlace)
                <==> update@.name == dec_guild(old(archive)@).name),
            !valid_guild(old(archive)@) ==> r == Err::<PatchMode, CacheError>(CacheError::Decode)
                && final(archive)@ == old(archive)@,
    {
        let l: usize = archive.len();
        if l < GUILD_NAME_CONTENT_OFF {
            return Err(CacheError::Decode);
        }
        if read_opt_hash_at(archive, 0).is_none() {
            return Err(CacheError::Decode);
        }
        if read_opt_u64_at(archive, GUILD_PERMS_OFF).is_none() {
            return Err(CacheError::Decode);
        }
        let stated: u64 = read_u64_at(archive, GUILD_NAME_OFF);
        if stated != (l - GUILD_NAME_CONTENT_OFF) as u64 {
            proof {
                assert(!valid_guild(archive@));
            }
            return Err(CacheError::Decode);
        }
        proof {
            assert(valid_guild(archive@));
        }
        if tail_eq(archive, GUILD_NAME_CONTENT_OFF, update.name.as_slice()) {
            proof {
                assert(dec_guild(archive@).name =~= archive@.skip(GUILD_NAME_CONTENT_OFF as int));
            }
            write_opt_hash_at(archive, 0, &update.icon);
            write_u64_at(archive, GUILD_ID_OFF, update.id);
            write_u64_at(archive, GUILD_OWNER_OFF, update.owner_id);
            write_opt_u64_at(archive, GUILD_PERMS_OFF, update.permissions);
            proof {
                lemma_opt_hash_round_trip(update@.icon);
                lemma_opt_u64_round_trip(update@.permissions);
                lemma_auto_spec_u64_to_from_le_bytes();
                assert(archive@ =~= guild_in_place(old(archive)@, update@));
                lemma_guild_in_place_matches_rewrite(old(archive)@, update@);
            }
            Ok(PatchMode::InPlace)
        } else {
            let mut owned: CachedGuild = match CachedGuild::decode(archive) {
                Ok(g) => g,
                Err(e) => {
                    return Err(e);
                },
            };
            owned.apply_update(update);
            let rebuilt: Vec<u8> = owned.encode();
            *archive = rebuilt;
            proof {
                assert(dec_guild(old(archive)@).name =~= old(archive)@.skip(
                    GUILD_NAME_CONTENT_OFF as int,
                ));
            }
            Ok(PatchMode::Rewrite)
        }
    }
}

/// Zero-copy reads from a validated guild archive: each fixed-width
/// field is read at its constant offset, and the name is handed out as
/// a borrowed slice, without decoding the rest of the archive.
impl CachedGuild {
    /// The guild id stored in the archive.
    pub fn archived_id(archive: &Vec<u8>) -> (r: u64)
        requires
            valid_guild(archive@),
        ensures
            r == dec_guild(archive@).id,
    {
        read_u64_at(archive, GUILD_ID_OFF)
    }

    /// The owner id stored in the archive.
    pub fn archived_owner_id(archive: &Vec<u8>) -> (r: u64)
        requires
            valid_guild(archive@),
        ensures
            r == dec_guild(archive@).owner_id,
    {
        read_u64_at(archive, GUILD_OWNER_OFF)
    }

    /// The icon hash stored in the archive.
    pub fn archived_icon(archive: &Vec<u8>) -> (r: Option<ImageHash>)
        requires
            valid_guild(archive@),
        ensures
            r == dec_guild(archive@).icon,
    {
        match read_opt_hash_at(archive, 0) {
            Some(h) => h,
            None => None,
        }
    }

    /// The permission bit set stored in the archive.
    pub fn archived_permissions(archive: &Vec<u8>) -> (r: Option<u64>)
        requires
            valid_guild(archive@),
        ensures
            r == dec_guild(archive@).permissions,
    {
        match read_opt_u64_at(archive, GUILD_PERMS_OFF) {
            Some(p) => p,
            None => None,
        }
    }

    /// The name bytes stored in the archive, borrowed without copying.
    pub fn archived_name(archive: &Vec<u8>) -> (r: &[u8])
        requires
            valid_guild(archive@),
        ensures
            r@ == dec_guild(archive@).name,
    {
        let l: usize = archive.len();
        let r = slice_subrange(archive.as_slice(), GUILD_NAME_CONTENT_OFF, l);
        proof {
            assert(r@ =~= dec_guild(archive@).name);
        }
        r
    }
}

/// The byte-level effect of the in-place path: the fixed-width fields
/// are replaced by their new encodings, the name region is untouched.
pub open spec fn guild_in_place(s: Seq<u8>, u: GuildView) -> Seq<u8> {
    enc_opt_hash(u.icon) + spec_u64_to_le_bytes(u.id) + spec_u64_to_le_bytes(u.owner_id)
        + enc_opt_u64(u.permissions) + s.skip(GUILD_NAME_OFF as int)
}

/// In-place-patch equivalence: when the update's name equals the
/// archived name, the in-place byte surgery produces exactly the bytes
/// the rewrite path produces, namely the encoding of the updated
/// snapshot.  The two paths can never disagree.
pub proof fn lemma_guild_in_place_matches_rewrite(s: Seq<u8>, u: GuildView)
    requires
        valid_guild(s),
        u.name == dec_guild(s).name,
    ensures
        guild_in_place(s, u) == enc_guild(u),
{
    lemma_guild_canonical(s);
    let g = dec_guild(s);
    assert(enc_guild(g) == s);
    assert(s.skip(GUILD_NAME_OFF as int) =~= enc_blob(g.name)) by {
        lemma_opt_hash_round_trip(g.icon);
        lemma_opt_u64_round_trip(g.permissions);
        lemma_auto_spec_u64_to_from_le_bytes();
        assert(spec_u64_to_le_bytes(g.id).len() == 8);
        assert(spec_u64_to_le_bytes(g.owner_id).len() == 8);
    }
    assert(guild_in_place(s, u) == enc_guild(u));
}

/// No-op stability: an update whose fields all equal the archived
/// snapshot takes the in-place path and leaves the archive byte for
/// byte identical.
pub proof fn lemma_guild_noop_stable(s: Seq<u8>, u: GuildView)
    requires
        valid_guild(s),
        u == dec_guild(s),
    ensures
        guild_in_place(s, u) == s,
{
    lemma_guild_in_place_matches_rewrite(s, u);
    lemma_guild_canonical(s);
}

} // verus!
