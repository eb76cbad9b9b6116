//! Member snapshots: avatar hash, optional nickname and role-id list.
//!
//! A member event carries avatar, nickname and roles.  The nickname and
//! the role list are variable-length, so the patch goes in place only
//! when both match the archive exactly; the avatar is then the only
//! field rewritten.  Otherwise the archive is decoded, every field is
//! applied and the snapshot is re-encoded.

use crate::codec::{
    clone_bytes, dec_opt_hash, enc_opt_blob, enc_opt_hash, enc_u64_list, lemma_opt_blob_embed,
    lemma_opt_hash_canonical, lemma_opt_hash_round_trip, lemma_u64_list_embed,
    lemma_u64s_canonical, lemma_u64s_round_trip, opt_blob_at, opt_blob_at_end, opt_blob_at_ok,
    put_opt_blob, put_opt_hash, put_u64_list, read_opt_blob_at, read_opt_hash_at,
    read_u64_list_at, tail_eq, u64_list_at, u64_list_at_end, u64_list_at_ok, valid_opt_hash,
    write_opt_hash_at, ImageHash, OPT_HASH_LEN,
};
use crate::{CacheError, PatchMode};
use vstd::bytes::*;
use vstd::prelude::*;

verus! {

/// Offset of the optional nickname blob; everything before it is
/// fixed-width.
pub const MEMBER_NICK_OFF: usize = 18;

/// An owned member snapshot.
#[derive(Debug, PartialEq, Eq)]
pub struct CachedMember {
    pub avatar: Option<ImageHash>,
    pub nick: Option<Vec<u8>>,
    pub roles: Vec<u64>,
}

/// The mathematical value of a member snapshot.
pub struct MemberView {
    pub avatar: Option<ImageHash>,
    pub nick: Option<Seq<u8>>,
    pub roles: Seq<u64>,
}

impl View for CachedMember {
    type V = MemberView;

    open spec fn view(&self) -> MemberView {
        MemberView {
            avatar: self.avatar,
            nick: match self.nick {
                Some(n) => Some(n@),
                None => None,
            },
            roles: self.roles@,
        }
    }
}

/// Machine bounds every member snapshot held in memory meets.
pub open spec fn member_bounded(m: MemberView) -> bool {
    &&& (m.nick matches Some(n) ==> n.len() <= u64::MAX)
    &&& m.roles.len() <= u64::MAX
}

/// The archived byte form of a member snapshot: the fixed-width avatar,
/// then the nickname, then the role list.
pub open spec fn enc_member(m: MemberView) -> Seq<u8>
    recommends
        member_bounded(m),
{
    enc_opt_hash(m.avatar) + enc_opt_blob(m.nick) + enc_u64_list(m.roles)
}

/// Where the role list starts: right after the nickname.
pub open spec fn member_roles_off(s: Seq<u8>) -> int {
    opt_blob_at_end(s, MEMBER_NICK_OFF as int)
}

/// Whether `s` is a well-formed member archive.
pub open spec fn valid_member(s: Seq<u8>) -> bool {
    &&& s.len() > MEMBER_NICK_OFF
    &&& valid_opt_hash(s.subrange(0, OPT_HASH_LEN as int))
    &&& opt_blob_at_ok(s, MEMBER_NICK_OFF as int)
    &&& u64_list_at_ok(s, member_roles_off(s))
    &&& u64_list_at_end(s, member_roles_off(s)) == s.len()
}

/// The snapshot a well-formed member archive holds.
pub open spec fn dec_member(s: Seq<u8>) -> MemberView
    recommends
        valid_member(s),
{
    MemberView {
        avatar: dec_opt_hash(s.subrange(0, OPT_HASH_LEN as int)),
        nick: opt_blob_at(s, MEMBER_NICK_OFF as int),
        roles: u64_list_at(s, member_roles_off(s)),
    }
}

/// Round trip: decoding an encoded member snapshot returns the snapshot
/// unchanged, field for field.
pub proof fn lemma_member_round_trip(m: MemberView)
    requires
        member_bounded(m),
    ensures
        valid_member(enc_member(m)),
        dec_member(enc_member(m)) == m,
{
    lemma_auto_spec_u64_to_from_le_bytes();
    lemma_opt_hash_round_trip(m.avatar);
    let s = enc_member(m);
    let nick_len = enc_opt_blob(m.nick).len();
    assert(s.subrange(0, OPT_HASH_LEN as int) =~= enc_opt_hash(m.avatar));
    assert(s.subrange(MEMBER_NICK_OFF as int, MEMBER_NICK_OFF + nick_len) =~= enc_opt_blob(m.nick));
    lemma_opt_blob_embed(s, MEMBER_NICK_OFF as int, m.nick);
    let q = MEMBER_NICK_OFF + nick_len;
    assert(member_roles_off(s) == q);
    assert(s.subrange(q as int, q + enc_u64_list(m.roles).len()) =~= enc_u64_list(m.roles));
    lemma_u64_list_embed(s, q as int, m.roles);
}

/// Canonical form: a well-formed member archive is exactly the encoding
/// of the snapshot it holds.
pub proof fn lemma_member_canonical(s: Seq<u8>)
    requires
        valid_member(s),
    ensures
        member_bounded(dec_member(s)),
        enc_member(dec_member(s)) == s,
        enc_opt_blob(dec_member(s).nick) + enc_u64_list(dec_member(s).roles) == s.skip(
            MEMBER_NICK_OFF as int,
        ),
{
    lemma_auto_spec_u64_to_from_le_bytes();
    let m = dec_member(s);
    let q = member_roles_off(s);
    lemma_opt_hash_canonical(s.subrange(0, OPT_HASH_LEN as int));
    // the nickname region re-encodes to itself
    assert(enc_opt_blob(m.nick) =~= s.subrange(MEMBER_NICK_OFF as int, q)) by {
        if s[MEMBER_NICK_OFF as int] == 1u8 {
            let blob_off = MEMBER_NICK_OFF + 1;
            let len_field = s.subrange(blob_off as int, blob_off + 8);
            assert(spec_u64_to_le_bytes(spec_u64_from_le_bytes(len_field)) == len_field);
            let n = m.nick->0;
            assert(n.len() == spec_u64_from_le_bytes(len_field));
            assert(spec_u64_to_le_bytes(n.len() as u64) == len_field);
        }
    }
    // the role-list region re-encodes to itself
    assert(enc_u64_list(m.roles) =~= s.subrange(q, s.len() as int)) by {
        let count_field = s.subrange(q, q + 8);
        assert(spec_u64_to_le_bytes(spec_u64_from_le_bytes(count_field)) == count_field);
        let body = s.subrange(q + 8, s.len() as int);
        assert(body.len() == 8 * spec_u64_from_le_bytes(count_field));
        assert(body.len() % 8 == 0);
        lemma_u64s_canonical(body);
        assert(m.roles.len() == spec_u64_from_le_bytes(count_field)) by {
            assert(m.roles == crate::codec::dec_u64s(body));
        }
        assert(spec_u64_to_le_bytes(m.roles.len() as u64) == count_field);
    }
    assert(enc_member(m) =~= s);
    assert(enc_opt_blob(m.nick) + enc_u64_list(m.roles) =~= s.skip(MEMBER_NICK_OFF as int));
}

/// The byte-level effect of the in-place path: only the avatar is
/// replaced, the nickname and role regions are untouched.
pub open spec fn member_in_place(s: Seq<u8>, avatar: Option<ImageHash>) -> Seq<u8> {
    enc_opt_hash(avatar) + s.skip(MEMBER_NICK_OFF as int)
}

/// In-place-patch equivalence: when the event's nickname and roles
/// equal the archived ones, the in-place byte surgery produces exactly
/// the bytes the rewrite path produces, namely the encoding of the
/// updated snapshot.
pub proof fn lemma_member_in_place_matches_rewrite(s: Seq<u8>, u: MemberView)
    requires
        valid_member(s),
        u.nick == dec_member(s).nick,
        u.roles == dec_member(s).roles,
    ensures
        member_in_place(s, u.avatar) == enc_member(u),
{
    lemma_member_canonical(s);
}

/// No-op stability: an event whose fields all equal the archived
/// snapshot takes the in-place path and leaves the archive byte for
/// byte identical.
pub proof fn lemma_member_noop_stable(s: Seq<u8>, u: MemberView)
    requires
        valid_member(s),
        u == dec_member(s),
    ensures
        member_in_place(s, u.avatar) == s,
{
    lemma_member_in_place_matches_rewrite(s, u);
    lemma_member_canonical(s);
}

/// Element-wise equality of two identifier lists.
fn u64s_eq(a: &Vec<u64>, b: &Vec<u64>) -> (r: bool)
    ensures
        r <==> a@ == b@,
{
    if a.len() != b.len() {
        proof {
            assert(a@.len() != b@.len());
        }
        return false;
    }
    let n: usize = a.len();
    let mut i: usize = 0;
    while i < n
        invariant
            n == a@.len(),
            n == b@.len(),
            i <= n,
            forall|j: int| 0 <= j < i ==> a@[j] == b@[j],
        decreases n - i,
    {
        if a[i] != b[i] {
            return false;
        }
        i = i + 1;
    }
    proof {
        assert(a@ =~= b@);
    }
    true
}

impl CachedMember {
    /// Encodes the snapshot into a fresh archive.
    pub fn encode(&self) -> (r: Vec<u8>)
        ensures
            r@ == enc_member(self@),
            valid_member(r@),
            dec_member(r@) == self@,
    {
        let mut buf: Vec<u8> = Vec::new();
        put_opt_hash(&mut buf, &self.avatar);
        put_opt_blob(&mut buf, &self.nick);
        put_u64_list(&mut buf, &self.roles);
        let nr: usize = self.roles.len();
        let nl: usize = match &self.nick {
            Some(n) => n.len(),
            None => 0,
        };
        proof {
            assert(self@.roles.len() == nr);
            if self.nick is Some {
                assert(self@.nick->0.len() == nl);
            }
            assert(member_bounded(self@));
            assert(buf@ =~= enc_member(self@));
            lemma_member_round_trip(self@);
        }
        buf
    }

    /// Decodes a member archive; fails exactly on archives no snapshot
    /// encodes to.
    pub fn decode(buf: &Vec<u8>) -> (r: Result<CachedMember, CacheError>)
        ensures
            r is Ok <==> valid_member(buf@),
            r matches Ok(m) ==> m@ == dec_member(buf@),
            r is Err ==> r == Err::<CachedMember, CacheError>(CacheError::Decode),
    {
        if buf.len() <= MEMBER_NICK_OFF {
            return Err(CacheError::Decode);
        }
        let avatar: Option<ImageHash> = match read_opt_hash_at(buf, 0) {
            Some(v) => v,
            None => {
                return Err(CacheError::Decode);
            },
        };
        let (nick, roles_off): (Option<Vec<u8>>, usize) = match read_opt_blob_at(
            buf,
            MEMBER_NICK_OFF,
        ) {
            Some(v) => v,
            None => {
                return Err(CacheError::Decode);
            },
        };
        match read_u64_list_at(buf, roles_off) {
            Some((roles, end)) => {
                if end != buf.len() {
                    return Err(CacheError::Decode);
                }
                Ok(CachedMember { avatar, nick, roles })
            },
            None => Err(CacheError::Decode),
        }
    }

    /// Sets every field to the value the event carries; the mutation
    /// step of the rewrite path.
    pub fn apply_update(&mut self, u: &CachedMember)
        ensures
            final(self)@ == u@,
    {
        self.avatar = u.avatar;
        self.nick = match &u.nick {
            Some(n) => Some(clone_bytes(n)),
            None => None,
        };
        self.roles = clone_u64s(&u.roles);
    }

    /// Applies a member event to an existing archive: in place when the
    /// nickname and role list are unchanged, by a full rewrite
    /// otherwise.  Either way the result is exactly the encoding of the
    /// updated snapshot; a malformed archive is reported and left
    /// untouched.
    pub fn update(archive: &mut Vec<u8>, update: &CachedMember) -> (r: Result<
        PatchMode,
        CacheError,
    >)
        ensures
            valid_member(old(archive)@) ==> r is Ok && final(archive)@ == enc_member(update@),
            valid_member(old(archive)@) ==> (r == Ok::<PatchMode, CacheError>(PatchMode::InPlace)
                <==> update@.nick == dec_member(old(archive)@).nick && update@.roles == dec_member(
                old(archive)@,
            ).roles),
            !valid_member(old(archive)@) ==> r == Err::<PatchMode, CacheError>(CacheError::Decode)
                && final(archive)@ == old(archive)@,
    {
        let l: usize = archive.len();
        if l <= MEMBER_NICK_OFF {
            return Err(CacheError::Decode);
        }
        if read_opt_hash_at(archive, 0).is_none() {
            return Err(CacheError::Decode);
        }
        let (nick, roles_off): (Option<Vec<u8>>, usize) = match read_opt_blob_at(
            archive,
            MEMBER_NICK_OFF,
        ) {
            Some(v) => v,
            None => {
                return Err(CacheError::Decode);
            },
        };
        let (roles, end): (Vec<u64>, usize) = match read_u64_list_at(archive, roles_off) {
            Some(v) => v,
            None => {
                return Err(CacheError::Decode);
            },
        };
        if end != l {
            return Err(CacheError::Decode);
        }
        proof {
            assert(valid_member(archive@));
        }
        let nick_eq: bool = match (&update.nick, &nick) {
            (Some(a), Some(b)) => tail_eq(a, 0, b.as_slice()),
            (None, None) => true,
            _ => false,
        };
        proof {
            if update.nick is Some && nick is Some {
                assert(update.nick->0@.skip(0) =~= update.nick->0@);
            }
        }
        if nick_eq && u64s_eq(&update.roles, &roles) {
            write_opt_hash_at(archive, 0, &update.avatar);
            proof {
                lemma_opt_hash_round_trip(update@.avatar);
                assert(archive@ =~= member_in_place(old(archive)@, update@.avatar));
                lemma_member_in_place_matches_rewrite(
                    old(archive)@,
                    MemberView {
                        avatar: update@.avatar,
                        nick: dec_member(old(archive)@).nick,
                        roles: dec_member(old(archive)@).roles,
                    },
                );
            }
            Ok(PatchMode::InPlace)
        } else {
            let mut owned: CachedMember = match CachedMember::decode(archive) {
                Ok(m) => m,
                Err(e) => {
                    return Err(e);
                },
            };
            owned.apply_update(update);
            let rebuilt: Vec<u8> = owned.encode();
            *archive = rebuilt;
            Ok(PatchMode::Rewrite)
        }
    }
}

/// An owned copy of an identifier list.
fn clone_u64s(v: &Vec<u64>) -> (r: Vec<u64>)
    ensures
        r@ == v@,
{
    let n: usize = v.len();
    let mut out: Vec<u64> = Vec::new();
    let mut i: usize = 0;
    while i < n
        invariant
            n == v@.len(),
            i <= n,
            out@ == v@.take(i as int),
        decreases n - i,
    {
        out.push(v[i]);
        proof {
            assert(v@.take(i + 1) =~= v@.take(i as int).push(v@[i as int]));
        }
        i = i + 1;
    }
    proof {
        assert(v@.take(n as int) =~= v@);
    }
    out
}

} // verus!
