//! Channel snapshots: owning guild, id, kind tag, name, parent and
//! position, plus the optional list of packed permission-override
//! records.
//!
//! Channels have no update hook (a pins update changes nothing the
//! cache retains), so a channel archive is only ever created whole from
//! the live object.

use crate::codec::{
    dec_opt_i32, dec_opt_u64, enc_opt_blob, enc_opt_i32, enc_opt_u64, lemma_opt_blob_embed,
    lemma_opt_i32_round_trip, lemma_opt_u64_round_trip, opt_blob_at, opt_blob_at_end,
    opt_blob_at_ok, put_opt_blob, put_opt_i32, put_opt_u64, put_u64, read_opt_blob_at,
    read_opt_i32_at, read_opt_u64_at, read_u64_at, valid_opt_i32, valid_opt_u64,
};
use crate::overwrite::{
    enc_overwrite_list, lemma_overwrite_list_embed, overwrite_list_at, overwrite_list_at_end,
    overwrite_list_at_ok, put_overwrite_list, read_overwrite_list_at, PermissionOverwrite,
};
use crate::CacheError;
use vstd::bytes::*;
use vstd::prelude::*;

verus! {

/// Offset of the channel id.
pub const CHANNEL_ID_OFF: usize = 9;

/// Offset of the kind tag.
pub const CHANNEL_KIND_OFF: usize = 17;

/// Offset of the optional parent id.
pub const CHANNEL_PARENT_OFF: usize = 18;

/// Offset of the optional position.
pub const CHANNEL_POSITION_OFF: usize = 27;

/// Offset of the optional name blob; everything before it is
/// fixed-width.
pub const CHANNEL_NAME_OFF: usize = 32;

/// The closed set of channel kinds, archived as a single byte tag.
#[derive(Clone, Copy, PartialEq, Eq, Structural, Debug)]
pub enum ChannelKind {
    GuildText,
    Private,
    GuildVoice,
    Group,
    GuildCategory,
    GuildAnnouncement,
    AnnouncementThread,
    PublicThread,
    PrivateThread,
    GuildStageVoice,
    GuildDirectory,
    GuildForum,
}

/// The byte tag of a channel kind.
pub open spec fn channel_kind_tag(k: ChannelKind) -> u8 {
    match k {
        ChannelKind::GuildText => 0u8,
        ChannelKind::Private => 1u8,
        ChannelKind::GuildVoice => 2u8,
        ChannelKind::Group => 3u8,
        ChannelKind::GuildCategory => 4u8,
        ChannelKind::GuildAnnouncement => 5u8,
        ChannelKind::AnnouncementThread => 10u8,
        ChannelKind::PublicThread => 11u8,
        ChannelKind::PrivateThread => 12u8,
        ChannelKind::GuildStageVoice => 13u8,
        ChannelKind::GuildDirectory => 14u8,
        ChannelKind::GuildForum => 15u8,
    }
}

/// Whether a byte is the tag of some channel kind.  Unknown bytes are a
/// decode error, never silently coerced.
pub open spec fn valid_channel_kind_tag(b: u8) -> bool {
    b == 0u8 || b == 1u8 || b == 2u8 || b == 3u8 || b == 4u8 || b == 5u8 || b == 10u8 || b == 11u8
        || b == 12u8 || b == 13u8 || b == 14u8 || b == 15u8
}

pub open spec fn dec_channel_kind_tag(b: u8) -> ChannelKind
    recommends
        valid_channel_kind_tag(b),
{
    if b == 0u8 {
        ChannelKind::GuildText
    } else if b == 1u8 {
        ChannelKind::Private
    } else if b == 2u8 {
        ChannelKind::GuildVoice
    } else if b == 3u8 {
        ChannelKind::Group
    } else if b == 4u8 {
        ChannelKind::GuildCategory
    } else if b == 5u8 {
        ChannelKind::GuildAnnouncement
    } else if b == 10u8 {
        ChannelKind::AnnouncementThread
    } else if b == 11u8 {
        ChannelKind::PublicThread
    } else if b == 12u8 {
        ChannelKind::PrivateThread
    } else if b == 13u8 {
        ChannelKind::GuildStageVoice
    } else if b == 14u8 {
        ChannelKind::GuildDirectory
    } else {
        ChannelKind::GuildForum
    }
}

/// Exec form of `channel_kind_tag`.
pub fn channel_kind_to_byte(k: ChannelKind) -> (b: u8)
    ensures
        b == channel_kind_tag(k),
{
    match k {
        ChannelKind::GuildText => 0u8,
        ChannelKind::Private => 1u8,
        ChannelKind::GuildVoice => 2u8,
        ChannelKind::Group => 3u8,
        ChannelKind::GuildCategory => 4u8,
        ChannelKind::GuildAnnouncement => 5u8,
        ChannelKind::AnnouncementThread => 10u8,
        ChannelKind::PublicThread => 11u8,
        ChannelKind::PrivateThread => 12u8,
        ChannelKind::GuildStageVoice => 13u8,
        ChannelKind::GuildDirectory => 14u8,
        ChannelKind::GuildForum => 15u8,
    }
}

/// Exec form of `dec_channel_kind_tag`; `None` on unknown tags.
pub fn channel_kind_from_byte(b: u8) -> (r: Option<ChannelKind>)
    ensures
        r is Some <==> valid_channel_kind_tag(b),
        r is Some ==> r->0 == dec_channel_kind_tag(b),
{
    if b == 0 {
        Some(ChannelKind::GuildText)
    } else if b == 1 {
        Some(ChannelKind::Private)
    } else if b == 2 {
        Some(ChannelKind::GuildVoice)
    } else if b == 3 {
        Some(ChannelKind::Group)
    } else if b == 4 {
        Some(ChannelKind::GuildCategory)
    } else if b == 5 {
        Some(ChannelKind::GuildAnnouncement)
    } else if b == 10 {
        Some(ChannelKind::AnnouncementThread)
    } else if b == 11 {
        Some(ChannelKind::PublicThread)
    } else if b == 12 {
        Some(ChannelKind::PrivateThread)
    } else if b == 13 {
        Some(ChannelKind::GuildStageVoice)
    } else if b == 14 {
        Some(ChannelKind::GuildDirectory)
    } else if b == 15 {
        Some(ChannelKind::GuildForum)
    } else {
        None
    }
}

/// An owned channel snapshot.
#[derive(Debug, PartialEq, Eq)]
pub struct CachedChannel {
    pub guild_id: Option<u64>,
    pub id: u64,
    pub kind: ChannelKind,
    pub name: Option<Vec<u8>>,
    pub parent_id: Option<u64>,
    pub permission_overwrites: Option<Vec<PermissionOverwrite>>,
    pub position: Option<i32>,
}

/// The mathematical value of a channel snapshot.
pub struct ChannelView {
    pub guild_id: Option<u64>,
    pub id: u64,
    pub kind: ChannelKind,
    pub name: Option<Seq<u8>>,
    pub parent_id: Option<u64>,
    pub permission_overwrites: Option<Seq<PermissionOverwrite>>,
    pub position: Option<i32>,
}

impl View for CachedChannel {
    type V = ChannelView;

    open spec fn view(&self) -> ChannelView {
        ChannelView {
            guild_id: self.guild_id,
            id: self.id,
            kind: self.kind,
            name: match self.name {
                Some(n) => Some(n@),
                None => None,
            },
            parent_id: self.parent_id,
            permission_overwrites: match self.permission_overwrites {
                Some(l) => Some(l@),
                None => None,
            },
            position: self.position,
        }
    }
}

/// Machine bounds every channel snapshot held in memory meets.
pub open spec fn channel_bounded(c: ChannelView) -> bool {
    &&& (c.name matches Some(n) ==> n.len() <= u64::MAX)
    &&& (c.permission_overwrites matches Some(l) ==> l.len() <= u64::MAX)
}

pub open spec fn enc_opt_overwrite_list(o: Option<Seq<PermissionOverwrite>>) -> Seq<u8> {
    match o {
        Some(l) => seq![1u8] + enc_overwrite_list(l),
        None => seq![0u8],
    }
}

/// The archived byte form of a channel snapshot: fixed-width fields at
/// constant offsets, then the name, then the override list.
pub open spec fn enc_channel(c: ChannelView) -> Seq<u8>
    recommends
        channel_bounded(c),
{
    enc_opt_u64(c.guild_id) + spec_u64_to_le_bytes(c.id) + seq![channel_kind_tag(c.kind)]
        + enc_opt_u64(c.parent_id) + enc_opt_i32(c.position) + enc_opt_blob(c.name)
        + enc_opt_overwrite_list(c.permission_overwrites)
}

/// Where the override list region starts: right after the name.
pub open spec fn channel_overwrites_off(s: Seq<u8>) -> int {
    opt_blob_at_end(s, CHANNEL_NAME_OFF as int)
}

/// Whether `s` is a well-formed channel archive.
pub open spec fn valid_channel(s: Seq<u8>) -> bool {
    let q = channel_overwrites_off(s);
    &&& s.len() > CHANNEL_NAME_OFF
    &&& valid_opt_u64(s.subrange(0, CHANNEL_ID_OFF as int))
    &&& valid_channel_kind_tag(s[CHANNEL_KIND_OFF as int])
    &&& valid_opt_u64(s.subrange(CHANNEL_PARENT_OFF as int, CHANNEL_POSITION_OFF as int))
    &&& valid_opt_i32(s.subrange(CHANNEL_POSITION_OFF as int, CHANNEL_NAME_OFF as int))
    &&& opt_blob_at_ok(s, CHANNEL_NAME_OFF as int)
    &&& q + 1 <= s.len()
    &&& (s[q] == 0u8 || s[q] == 1u8)
    &&& (s[q] == 1u8 ==> overwrite_list_at_ok(s, q + 1) && overwrite_list_at_end(s, q + 1)
        == s.len())
    &&& (s[q] == 0u8 ==> q + 1 == s.len())
}

/// The snapshot a well-formed channel archive holds.
pub open spec fn dec_channel(s: Seq<u8>) -> ChannelView
    recommends
        valid_channel(s),
{
    let q = channel_overwrites_off(s);
    ChannelView {
        guild_id: dec_opt_u64(s.subrange(0, CHANNEL_ID_OFF as int)),
        id: spec_u64_from_le_bytes(s.subrange(CHANNEL_ID_OFF as int, CHANNEL_KIND_OFF as int)),
        kind: dec_channel_kind_tag(s[CHANNEL_KIND_OFF as int]),
        name: opt_blob_at(s, CHANNEL_NAME_OFF as int),
        parent_id: dec_opt_u64(s.subrange(CHANNEL_PARENT_OFF as int, CHANNEL_POSITION_OFF as int)),
        permission_overwrites: if s[q] == 1u8 {
            Some(overwrite_list_at(s, q + 1))
        } else {
            None
        },
        position: dec_opt_i32(s.subrange(CHANNEL_POSITION_OFF as int, CHANNEL_NAME_OFF as int)),
    }
}

/// Round trip: decoding an encoded channel snapshot returns the
/// snapshot unchanged, field for field.
pub proof fn lemma_channel_round_trip(c: ChannelView)
    requires
        channel_bounded(c),
    ensures
        valid_channel(enc_channel(c)),
        dec_channel(enc_channel(c)) == c,
{
    lemma_auto_spec_u64_to_from_le_bytes();
    lemma_opt_u64_round_trip(c.guild_id);
    lemma_opt_u64_round_trip(c.parent_id);
    lemma_opt_i32_round_trip(c.position);
    let s = enc_channel(c);
    let nick_len = enc_opt_blob(c.name).len();
    assert(spec_u64_to_le_bytes(c.id).len() == 8);
    assert(s.subrange(0, CHANNEL_ID_OFF as int) =~= enc_opt_u64(c.guild_id));
    assert(s.subrange(CHANNEL_ID_OFF as int, CHANNEL_KIND_OFF as int) =~= spec_u64_to_le_bytes(
        c.id,
    ));
    assert(s[CHANNEL_KIND_OFF as int] == channel_kind_tag(c.kind));
    assert(s.subrange(CHANNEL_PARENT_OFF as int, CHANNEL_POSITION_OFF as int) =~= enc_opt_u64(
        c.parent_id,
    ));
    assert(s.subrange(CHANNEL_POSITION_OFF as int, CHANNEL_NAME_OFF as int) =~= enc_opt_i32(
        c.position,
    ));
    assert(s.subrange(CHANNEL_NAME_OFF as int, CHANNEL_NAME_OFF + nick_len) =~= enc_opt_blob(
        c.name,
    ));
    lemma_opt_blob_embed(s, CHANNEL_NAME_OFF as int, c.name);
    let q = CHANNEL_NAME_OFF + nick_len;
    assert(channel_overwrites_off(s) == q);
    match c.permission_overwrites {
        Some(l) => {
            assert(s[q as int] == 1u8);
            assert(s.subrange(q + 1, q + 1 + enc_overwrite_list(l).len()) =~= enc_overwrite_list(
                l,
            ));
            lemma_overwrite_list_embed(s, q + 1, l);
        },
        None => {
            assert(s[q as int] == 0u8);
        },
    }
}

impl CachedChannel {
    /// Encodes the snapshot into a fresh archive.
    pub fn encode(&self) -> (r: Vec<u8>)
        ensures
            r@ == enc_channel(self@),
            valid_channel(r@),
            dec_channel(r@) == self@,
    {
        let mut buf: Vec<u8> = Vec::new();
        put_opt_u64(&mut buf, self.guild_id);
        put_u64(&mut buf, self.id);
        buf.push(channel_kind_to_byte(self.kind));
        put_opt_u64(&mut buf, self.parent_id);
        put_opt_i32(&mut buf, self.position);
        put_opt_blob(&mut buf, &self.name);
        match &self.permission_overwrites {
            Some(l) => {
                buf.push(1u8);
                put_overwrite_list(&mut buf, l);
            },
            None => {
                buf.push(0u8);
            },
        }
        let nl: usize = match &self.name {
            Some(n) => n.len(),
            None => 0,
        };
        let ol: usize = match &self.permission_overwrites {
            Some(l) => l.len(),
            None => 0,
        };
        proof {
            if self.name is Some {
                assert(self@.name->0.len() == nl);
            }
            if self.permission_overwrites is Some {
                assert(self@.permission_overwrites->0.len() == ol);
            }
            assert(channel_bounded(self@));
            assert(buf@ =~= enc_channel(self@));
            lemma_channel_round_trip(self@);
        }
        buf
    }

    /// Decodes a channel archive; fails exactly on archives no snapshot
    /// encodes to.
    pub fn decode(buf: &Vec<u8>) -> (r: Result<CachedChannel, CacheError>)
        ensures
            r is Ok <==> valid_channel(buf@),
            r matches Ok(c) ==> c@ == dec_channel(buf@),
            r is Err ==> r == Err::<CachedChannel, CacheError>(CacheError::Decode),
    {
        if buf.len() <= CHANNEL_NAME_OFF {
            return Err(CacheError::Decode);
        }
        let guild_id: Option<u64> = match read_opt_u64_at(buf, 0) {
            Some(v) => v,
            None => {
                return Err(CacheError::Decode);
            },
        };
        let id: u64 = read_u64_at(buf, CHANNEL_ID_OFF);
        let kind: ChannelKind = match channel_kind_from_byte(buf[CHANNEL_KIND_OFF]) {
            Some(v) => v,
            None => {
                return Err(CacheError::Decode);
            },
        };
        let parent_id: Option<u64> = match read_opt_u64_at(buf, CHANNEL_PARENT_OFF) {
            Some(v) => v,
            None => {
                return Err(CacheError::Decode);
            },
        };
        let position: Option<i32> = match read_opt_i32_at(buf, CHANNEL_POSITION_OFF) {
            Some(v) => v,
            None => {
                return Err(CacheError::Decode);
            },
        };
        let (name, q): (Option<Vec<u8>>, usize) = match read_opt_blob_at(buf, CHANNEL_NAME_OFF) {
            Some(v) => v,
            None => {
                return Err(CacheError::Decode);
            },
        };
        if q >= buf.len() {
            return Err(CacheError::Decode);
        }
        let list_tag: u8 = buf[q];
        if list_tag == 1 {
            match read_overwrite_list_at(buf, q + 1) {
                Some((l, end)) => {
                    if end != buf.len() {
                        return Err(CacheError::Decode);
                    }
                    Ok(
                        CachedChannel {
                            guild_id,
                            id,
                            kind,
                            name,
                            parent_id,
                            permission_overwrites: Some(l),
                            position,
                        },
                    )
                },
                None => Err(CacheError::Decode),
            }
        } else if list_tag == 0 {
            if q + 1 != buf.len() {
                return Err(CacheError::Decode);
            }
            Ok(
                CachedChannel {
                    guild_id,
                    id,
                    kind,
                    name,
                    parent_id,
                    permission_overwrites: None,
                    position,
                },
            )
        } else {
            Err(CacheError::Decode)
        }
    }
}

} // verus!
