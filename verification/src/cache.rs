//! The cache facade: one addressable store per entity kind, per-kind
//! enable/disable, update dispatch and statistics.
//!
//! Kinds whose configuration says "not cached" are never written; every
//! operation on them is a no-op and every read reports absence, exactly
//! as a genuinely evicted entry would.  An update is a single
//! read-modify-write of one entry: it either patches the archive in
//! place, rewrites it whole, or — when the stored bytes are malformed —
//! fails and leaves the entry untouched.

use crate::channel::{enc_channel, CachedChannel};
use crate::codec::clone_bytes;
use crate::config::{Config, EntityKind};
use crate::current_user::{enc_current_user, CachedCurrentUser};
use crate::guild::{dec_guild, enc_guild, valid_guild, CachedGuild};
use crate::member::{dec_member, enc_member, valid_member, CachedMember};
use crate::role::{enc_role, CachedRole};
use crate::user::{
    dec_user, enc_user, user_apply_partial, valid_user, CachedUser, PartialUser,
};
use crate::{CacheError, PatchMode};
use std::collections::HashMap;
use std::collections::HashSet;
use vstd::prelude::*;

verus! {

/// How an update call ended when it did not fail.
#[derive(Clone, Copy, PartialEq, Eq, Structural, Debug)]
pub enum UpdateOutcome {
    /// The kind is not cached, or registers no hook for this event; the
    /// call was a no-op.
    Ignored,
    /// No entry is stored under the key; nothing to patch.
    Missing,
    /// Every variable-length field matched; the archive was patched at
    /// its constant offsets.
    InPlace,
    /// A variable-length field differed; the archive was decoded,
    /// mutated and re-encoded whole.
    Rewritten,
}

/// The periodic statistics snapshot.
#[derive(Clone, Copy, PartialEq, Eq, Structural, Debug)]
pub struct CacheStats {
    pub channel_count: usize,
    pub guild_count: usize,
    pub role_count: usize,
    pub unavailable_guild_count: usize,
    pub user_count: usize,
}

/// The key of an entity addressed by its own id.
pub open spec fn entity_key(id: u64) -> u128 {
    id as u128
}

/// The key of a member: its user id scoped by the owning guild id.
pub open spec fn member_key(guild_id: u64, user_id: u64) -> u128 {
    ((guild_id as u128) << 64) | (user_id as u128)
}

/// Member keys collide exactly when both ids agree, so two distinct
/// members can never overwrite one another.
pub proof fn lemma_member_key_injective(g1: u64, u1: u64, g2: u64, u2: u64)
    ensures
        member_key(g1, u1) == member_key(g2, u2) <==> (g1 == g2 && u1 == u2),
{
    assert((((g1 as u128) << 64) | (u1 as u128)) == (((g2 as u128) << 64) | (u2 as u128)) <==> (g1
        == g2 && u1 == u2)) by (bit_vector);
}

/// Exec form of `member_key`.
pub fn make_member_key(guild_id: u64, user_id: u64) -> (k: u128)
    ensures
        k == member_key(guild_id, user_id),
{
    ((guild_id as u128) << 64) | (user_id as u128)
}

/// The bytes each entry of a store holds, as sequences.
pub open spec fn store_view(m: Map<u128, Vec<u8>>) -> Map<u128, Seq<u8>> {
    Map::new(|k: u128| m.contains_key(k), |k: u128| m[k]@)
}

proof fn lemma_store_view_insert(m: Map<u128, Vec<u8>>, k: u128, v: Vec<u8>)
    ensures
        store_view(m.insert(k, v)) == store_view(m).insert(k, v@),
{
    assert(store_view(m.insert(k, v)) =~= store_view(m).insert(k, v@));
}

proof fn lemma_store_view_remove(m: Map<u128, Vec<u8>>, k: u128)
    ensures
        store_view(m.remove(k)) == store_view(m).remove(k),
{
    assert(store_view(m.remove(k)) =~= store_view(m).remove(k));
}

/// The cache: one store per data-bearing kind, the singleton current
/// user, and the set of guilds the gateway has reported unavailable.
pub struct Cache {
    config: Config,
    channels: HashMap<u128, Vec<u8>>,
    guilds: HashMap<u128, Vec<u8>>,
    members: HashMap<u128, Vec<u8>>,
    roles: HashMap<u128, Vec<u8>>,
    users: HashMap<u128, Vec<u8>>,
    current_user: Option<Vec<u8>>,
    unavailable_guilds: HashSet<u64>,
}

impl Cache {
    /// The configuration the cache was built with; never mutated.
    pub closed spec fn config(self) -> Config {
        self.config
    }

    pub closed spec fn channels_view(self) -> Map<u128, Seq<u8>> {
        store_view(self.channels@)
    }

    pub closed spec fn guilds_view(self) -> Map<u128, Seq<u8>> {
        store_view(self.guilds@)
    }

    pub closed spec fn members_view(self) -> Map<u128, Seq<u8>> {
        store_view(self.members@)
    }

    pub closed spec fn roles_view(self) -> Map<u128, Seq<u8>> {
        store_view(self.roles@)
    }

    pub closed spec fn users_view(self) -> Map<u128, Seq<u8>> {
        store_view(self.users@)
    }

    pub closed spec fn current_user_view(self) -> Option<Seq<u8>> {
        match self.current_user {
            Some(v) => Some(v@),
            None => None,
        }
    }

    pub closed spec fn unavailable_view(self) -> Set<u64> {
        self.unavailable_guilds@
    }

    /// Whether `kind` is cached under this cache's configuration.
    pub fn is_kind_cached(&self, kind: EntityKind) -> (r: bool)
        ensures
            r == self.config().spec_settings(kind).cached,
    {
        self.config.is_cached(kind)
    }

    /// A fresh cache: the given configuration and nothing stored.
    pub fn new(config: Config) -> (c: Cache)
        ensures
            c.config() == config,
            c.channels_view() == Map::<u128, Seq<u8>>::empty(),
            c.guilds_view() == Map::<u128, Seq<u8>>::empty(),
            c.members_view() == Map::<u128, Seq<u8>>::empty(),
            c.roles_view() == Map::<u128, Seq<u8>>::empty(),
            c.users_view() == Map::<u128, Seq<u8>>::empty(),
            c.current_user_view() is None,
            c.unavailable_view() == Set::<u64>::empty(),
    {
        let c = Cache {
            config,
            channels: HashMap::new(),
            guilds: HashMap::new(),
            members: HashMap::new(),
            roles: HashMap::new(),
            users: HashMap::new(),
            current_user: None,
            unavailable_guilds: HashSet::new(),
        };
        proof {
            assert(c.channels_view() =~= Map::<u128, Seq<u8>>::empty());
            assert(c.guilds_view() =~= Map::<u128, Seq<u8>>::empty());
            assert(c.members_view() =~= Map::<u128, Seq<u8>>::empty());
            assert(c.roles_view() =~= Map::<u128, Seq<u8>>::empty());
            assert(c.users_view() =~= Map::<u128, Seq<u8>>::empty());
        }
        c
    }
}

/// Everything but the store of `kind` is the same in `pre` and `post`:
/// the configuration, the other five stores and the unavailable set.
pub open spec fn same_except(pre: Cache, post: Cache, kind: EntityKind) -> bool {
    &&& post.config() == pre.config()
    &&& (kind != EntityKind::Channel ==> post.channels_view() == pre.channels_view())
    &&& (kind != EntityKind::CurrentUser ==> post.current_user_view() == pre.current_user_view())
    &&& (kind != EntityKind::Guild ==> post.guilds_view() == pre.guilds_view())
    &&& (kind != EntityKind::Member ==> post.members_view() == pre.members_view())
    &&& (kind != EntityKind::Role ==> post.roles_view() == pre.roles_view())
    &&& (kind != EntityKind::User ==> post.users_view() == pre.users_view())
    &&& post.unavailable_view() == pre.unavailable_view()
}

impl Cache {
    /// Stores the archive of a guild snapshot taken from the live
    /// object, overwriting any previous entry; a no-op when guilds are
    /// not cached.
    pub fn store_guild_from_live(&mut self, guild: &CachedGuild)
        ensures
            same_except(*old(self), *final(self), EntityKind::Guild),
            old(self).config().spec_settings(EntityKind::Guild).cached ==> final(self).guilds_view() == old(self).guilds_view().insert(
                entity_key(guild.id),
                enc_guild(guild@),
            ),
            !old(self).config().spec_settings(EntityKind::Guild).cached ==> final(self).guilds_view() == old(self).guilds_view(),
    {
        if self.config.is_cached(EntityKind::Guild) {
            let bytes = guild.encode();
            let ghost v = bytes;
            self.guilds.insert(guild.id as u128, bytes);
            proof {
                lemma_store_view_insert(old(self).guilds@, entity_key(guild.id), v);
            }
        }
    }

    /// The archived bytes of the guild stored under `id`; `None` when
    /// guilds are not cached or no entry exists.
    pub fn fetch_guild(&self, id: u64) -> (r: Option<Vec<u8>>)
        ensures
            r is Some <==> self.config().spec_settings(EntityKind::Guild).cached
                && self.guilds_view().contains_key(entity_key(id)),
            r matches Some(v) ==> v@ == self.guilds_view()[entity_key(id)],
    {
        if !self.config.is_cached(EntityKind::Guild) {
            return None;
        }
        match self.guilds.get(&(id as u128)) {
            Some(v) => Some(clone_bytes(v)),
            None => None,
        }
    }

    /// Drops the entry stored under `id`, if any.
    pub fn remove_guild(&mut self, id: u64)
        ensures
            same_except(*old(self), *final(self), EntityKind::Guild),
            old(self).config().spec_settings(EntityKind::Guild).cached ==> final(self).guilds_view() == old(self).guilds_view().remove(entity_key(id)),
            !old(self).config().spec_settings(EntityKind::Guild).cached ==> final(self).guilds_view() == old(self).guilds_view(),
    {
        if self.config.is_cached(EntityKind::Guild) {
            self.guilds.remove(&(id as u128));
            proof {
                lemma_store_view_remove(old(self).guilds@, entity_key(id));
            }
        }
    }

    /// Dispatches a guild update event: a single read-modify-write that
    /// patches the stored archive in place when the name is unchanged
    /// and rewrites it whole otherwise.  A malformed archive is
    /// reported and left exactly as it was.
    pub fn update_guild(&mut self, id: u64, update: &CachedGuild) -> (r: Result<
        UpdateOutcome,
        CacheError,
    >)
        ensures
            same_except(*old(self), *final(self), EntityKind::Guild),
            !old(self).config().spec_settings(EntityKind::Guild).cached ==> r == Ok::<
                UpdateOutcome,
                CacheError,
            >(UpdateOutcome::Ignored) && final(self).guilds_view() == old(self).guilds_view(),
            old(self).config().spec_settings(EntityKind::Guild).cached && !old(self).guilds_view().contains_key(entity_key(id)) ==> r == Ok::<
                UpdateOutcome,
                CacheError,
            >(UpdateOutcome::Missing) && final(self).guilds_view() == old(self).guilds_view(),
            old(self).config().spec_settings(EntityKind::Guild).cached && old(self).guilds_view().contains_key(entity_key(id)) ==> {
                let stored = old(self).guilds_view()[entity_key(id)];
                if valid_guild(stored) {
                    &&& final(self).guilds_view() == old(self).guilds_view().insert(
                        entity_key(id),
                        enc_guild(update@),
                    )
                    &&& (r == Ok::<UpdateOutcome, CacheError>(UpdateOutcome::InPlace) <==> update@.name
                        == dec_guild(stored).name)
                    &&& (r is Ok && (r->Ok_0 == UpdateOutcome::InPlace || r->Ok_0
                        == UpdateOutcome::Rewritten))
                } else {
                    &&& r == Err::<UpdateOutcome, CacheError>(CacheError::Decode)
                    &&& final(self).guilds_view() == old(self).guilds_view()
                }
            },
    {
        if !self.config.is_cached(EntityKind::Guild) {
            return Ok(UpdateOutcome::Ignored);
        }
        let mut bytes: Vec<u8> = match self.guilds.get(&(id as u128)) {
            Some(v) => clone_bytes(v),
            None => {
                return Ok(UpdateOutcome::Missing);
            },
        };
        match CachedGuild::update(&mut bytes, update) {
            Ok(mode) => {
                let ghost v = bytes;
                self.guilds.insert(id as u128, bytes);
                proof {
                    lemma_store_view_insert(old(self).guilds@, entity_key(id), v);
                }
                match mode {
                    PatchMode::InPlace => Ok(UpdateOutcome::InPlace),
                    PatchMode::Rewrite => Ok(UpdateOutcome::Rewritten),
                }
            },
            Err(e) => Err(e),
        }
    }

    /// Stores the archive of a channel snapshot taken from the live
    /// object; a no-op when channels are not cached.
    pub fn store_channel_from_live(&mut self, channel: &CachedChannel)
        ensures
            same_except(*old(self), *final(self), EntityKind::Channel),
            old(self).config().spec_settings(EntityKind::Channel).cached ==> final(self).channels_view() == old(self).channels_view().insert(
                entity_key(channel.id),
                enc_channel(channel@),
            ),
            !old(self).config().spec_settings(EntityKind::Channel).cached ==> final(self).channels_view() == old(self).channels_view(),
    {
        if self.config.is_cached(EntityKind::Channel) {
            let bytes = channel.encode();
            let ghost v = bytes;
            self.channels.insert(channel.id as u128, bytes);
            proof {
                lemma_store_view_insert(old(self).channels@, entity_key(channel.id), v);
            }
        }
    }

    /// The archived bytes of the channel stored under `id`.
    pub fn fetch_channel(&self, id: u64) -> (r: Option<Vec<u8>>)
        ensures
            r is Some <==> self.config().spec_settings(EntityKind::Channel).cached
                && self.channels_view().contains_key(entity_key(id)),
            r matches Some(v) ==> v@ == self.channels_view()[entity_key(id)],
    {
        if !self.config.is_cached(EntityKind::Channel) {
            return None;
        }
        match self.channels.get(&(id as u128)) {
            Some(v) => Some(clone_bytes(v)),
            None => None,
        }
    }

    /// Drops the channel stored under `id`, if any.
    pub fn remove_channel(&mut self, id: u64)
        ensures
            same_except(*old(self), *final(self), EntityKind::Channel),
            old(self).config().spec_settings(EntityKind::Channel).cached ==> final(self).channels_view() == old(self).channels_view().remove(entity_key(id)),
            !old(self).config().spec_settings(EntityKind::Channel).cached ==> final(self).channels_view() == old(self).channels_view(),
    {
        if self.config.is_cached(EntityKind::Channel) {
            self.channels.remove(&(id as u128));
            proof {
                lemma_store_view_remove(old(self).channels@, entity_key(id));
            }
        }
    }

    /// Channels register no hook for pins updates, so the event changes
    /// nothing: the cache retains no field a pins change touches.
    pub fn on_channel_pins_update(&mut self, _id: u64) -> (r: Result<UpdateOutcome, CacheError>)
        ensures
            *final(self) == *old(self),
            r == Ok::<UpdateOutcome, CacheError>(UpdateOutcome::Ignored),
    {
        Ok(UpdateOutcome::Ignored)
    }

    /// Stores the archive of the current-user snapshot; a no-op when
    /// the current user is not cached.
    pub fn store_current_user_from_live(&mut self, user: &CachedCurrentUser)
        ensures
            same_except(*old(self), *final(self), EntityKind::CurrentUser),
            old(self).config().spec_settings(EntityKind::CurrentUser).cached ==> final(self).current_user_view() == Some(enc_current_user(user@)),
            !old(self).config().spec_settings(EntityKind::CurrentUser).cached ==> final(self).current_user_view() == old(self).current_user_view(),
    {
        if self.config.is_cached(EntityKind::CurrentUser) {
            self.current_user = Some(user.encode());
        }
    }

    /// The archived bytes of the current user.
    pub fn fetch_current_user(&self) -> (r: Option<Vec<u8>>)
        ensures
            r is Some <==> self.config().spec_settings(EntityKind::CurrentUser).cached
                && self.current_user_view() is Some,
            r matches Some(v) ==> Some(v@) == self.current_user_view(),
    {
        if !self.config.is_cached(EntityKind::CurrentUser) {
            return None;
        }
        match &self.current_user {
            Some(v) => Some(clone_bytes(v)),
            None => None,
        }
    }

    /// Stores the archive of a member snapshot taken from the live
    /// object, keyed by the owning guild and the member's user id.
    pub fn store_member_from_live(&mut self, guild_id: u64, user_id: u64, member: &CachedMember)
        ensures
            same_except(*old(self), *final(self), EntityKind::Member),
            old(self).config().spec_settings(EntityKind::Member).cached ==> final(self).members_view() == old(self).members_view().insert(
                member_key(guild_id, user_id),
                enc_member(member@),
            ),
            !old(self).config().spec_settings(EntityKind::Member).cached ==> final(self).members_view() == old(self).members_view(),
    {
        if self.config.is_cached(EntityKind::Member) {
            let bytes = member.encode();
            let ghost v = bytes;
            self.members.insert(make_member_key(guild_id, user_id), bytes);
            proof {
                lemma_store_view_insert(old(self).members@, member_key(guild_id, user_id), v);
            }
        }
    }

    /// The archived bytes of the member stored under the pair of ids.
    pub fn fetch_member(&self, guild_id: u64, user_id: u64) -> (r: Option<Vec<u8>>)
        ensures
            r is Some <==> self.config().spec_settings(EntityKind::Member).cached
                && self.members_view().contains_key(member_key(guild_id, user_id)),
            r matches Some(v) ==> v@ == self.members_view()[member_key(guild_id, user_id)],
    {
        if !self.config.is_cached(EntityKind::Member) {
            return None;
        }
        match self.members.get(&make_member_key(guild_id, user_id)) {
            Some(v) => Some(clone_bytes(v)),
            None => None,
        }
    }

    /// Drops the member stored under the pair of ids, if any.
    pub fn remove_member(&mut self, guild_id: u64, user_id: u64)
        ensures
            same_except(*old(self), *final(self), EntityKind::Member),
            old(self).config().spec_settings(EntityKind::Member).cached ==> final(self).members_view() == old(self).members_view().remove(member_key(guild_id, user_id)),
            !old(self).config().spec_settings(EntityKind::Member).cached ==> final(self).members_view() == old(self).members_view(),
    {
        if self.config.is_cached(EntityKind::Member) {
            self.members.remove(&make_member_key(guild_id, user_id));
            proof {
                lemma_store_view_remove(old(self).members@, member_key(guild_id, user_id));
            }
        }
    }

    /// Dispatches a member update event: in place when nickname and
    /// role list are unchanged, a whole rewrite otherwise.  Both the
    /// member-update and the partial-member gateway events carry the
    /// same three fields and go through this one dispatcher.
    pub fn update_member(&mut self, guild_id: u64, user_id: u64, update: &CachedMember) -> (r:
        Result<UpdateOutcome, CacheError>)
        ensures
            same_except(*old(self), *final(self), EntityKind::Member),
            !old(self).config().spec_settings(EntityKind::Member).cached ==> r == Ok::<
                UpdateOutcome,
                CacheError,
            >(UpdateOutcome::Ignored) && final(self).members_view() == old(self).members_view(),
            old(self).config().spec_settings(EntityKind::Member).cached && !old(self).members_view().contains_key(member_key(guild_id, user_id)) ==> r == Ok::<
                UpdateOutcome,
                CacheError,
            >(UpdateOutcome::Missing) && final(self).members_view() == old(self).members_view(),
            old(self).config().spec_settings(EntityKind::Member).cached && old(self).members_view().contains_key(member_key(guild_id, user_id)) ==> {
                let stored = old(self).members_view()[member_key(guild_id, user_id)];
                if valid_member(stored) {
                    &&& final(self).members_view() == old(self).members_view().insert(
                        member_key(guild_id, user_id),
                        enc_member(update@),
                    )
                    &&& (r == Ok::<UpdateOutcome, CacheError>(UpdateOutcome::InPlace) <==> update@.nick
                        == dec_member(stored).nick && update@.roles == dec_member(stored).roles)
                    &&& (r is Ok && (r->Ok_0 == UpdateOutcome::InPlace || r->Ok_0
                        == UpdateOutcome::Rewritten))
                } else {
                    &&& r == Err::<UpdateOutcome, CacheError>(CacheError::Decode)
                    &&& final(self).members_view() == old(self).members_view()
                }
            },
    {
        if !self.config.is_cached(EntityKind::Member) {
            return Ok(UpdateOutcome::Ignored);
        }
        let key: u128 = make_member_key(guild_id, user_id);
        let mut bytes: Vec<u8> = match self.members.get(&key) {
            Some(v) => clone_bytes(v),
            None => {
                return Ok(UpdateOutcome::Missing);
            },
        };
        match CachedMember::update(&mut bytes, update) {
            Ok(mode) => {
                let ghost v = bytes;
                self.members.insert(key, bytes);
                proof {
                    lemma_store_view_insert(old(self).members@, member_key(guild_id, user_id), v);
                }
                match mode {
                    PatchMode::InPlace => Ok(UpdateOutcome::InPlace),
                    PatchMode::Rewrite => Ok(UpdateOutcome::Rewritten),
                }
            },
            Err(e) => Err(e),
        }
    }

    /// Stores the archive of a role snapshot taken from the live
    /// object; a no-op when roles are not cached.
    pub fn store_role_from_live(&mut self, role: &CachedRole)
        ensures
            same_except(*old(self), *final(self), EntityKind::Role),
            old(self).config().spec_settings(EntityKind::Role).cached ==> final(self).roles_view()
                == old(self).roles_view().insert(entity_key(role.id), enc_role(role@)),
            !old(self).config().spec_settings(EntityKind::Role).cached ==> final(self).roles_view()
                == old(self).roles_view(),
    {
        if self.config.is_cached(EntityKind::Role) {
            let bytes = role.encode();
            let ghost v = bytes;
            self.roles.insert(role.id as u128, bytes);
            proof {
                lemma_store_view_insert(old(self).roles@, entity_key(role.id), v);
            }
        }
    }

    /// The archived bytes of the role stored under `id`.
    pub fn fetch_role(&self, id: u64) -> (r: Option<Vec<u8>>)
        ensures
            r is Some <==> self.config().spec_settings(EntityKind::Role).cached
                && self.roles_view().contains_key(entity_key(id)),
            r matches Some(v) ==> v@ == self.roles_view()[entity_key(id)],
    {
        if !self.config.is_cached(EntityKind::Role) {
            return None;
        }
        match self.roles.get(&(id as u128)) {
            Some(v) => Some(clone_bytes(v)),
            None => None,
        }
    }

    /// Drops the role stored under `id`, if any.
    pub fn remove_role(&mut self, id: u64)
        ensures
            same_except(*old(self), *final(self), EntityKind::Role),
            old(self).config().spec_settings(EntityKind::Role).cached ==> final(self).roles_view()
                == old(self).roles_view().remove(entity_key(id)),
            !old(self).config().spec_settings(EntityKind::Role).cached ==> final(self).roles_view()
                == old(self).roles_view(),
    {
        if self.config.is_cached(EntityKind::Role) {
            self.roles.remove(&(id as u128));
            proof {
                lemma_store_view_remove(old(self).roles@, entity_key(id));
            }
        }
    }

    /// Stores the archive of a user snapshot taken from the live
    /// object; a no-op when users are not cached.
    pub fn store_user_from_live(&mut self, user: &CachedUser)
        ensures
            same_except(*old(self), *final(self), EntityKind::User),
            old(self).config().spec_settings(EntityKind::User).cached ==> final(self).users_view()
                == old(self).users_view().insert(entity_key(user.id), enc_user(user@)),
            !old(self).config().spec_settings(EntityKind::User).cached ==> final(self).users_view()
                == old(self).users_view(),
    {
        if self.config.is_cached(EntityKind::User) {
            let bytes = user.encode();
            let ghost v = bytes;
            self.users.insert(user.id as u128, bytes);
            proof {
                lemma_store_view_insert(old(self).users@, entity_key(user.id), v);
            }
        }
    }

    /// The archived bytes of the user stored under `id`.
    pub fn fetch_user(&self, id: u64) -> (r: Option<Vec<u8>>)
        ensures
            r is Some <==> self.config().spec_settings(EntityKind::User).cached
                && self.users_view().contains_key(entity_key(id)),
            r matches Some(v) ==> v@ == self.users_view()[entity_key(id)],
    {
        if !self.config.is_cached(EntityKind::User) {
            return None;
        }
        match self.users.get(&(id as u128)) {
            Some(v) => Some(clone_bytes(v)),
            None => None,
        }
    }

    /// Drops the user stored under `id`, if any.
    pub fn remove_user(&mut self, id: u64)
        ensures
            same_except(*old(self), *final(self), EntityKind::User),
            old(self).config().spec_settings(EntityKind::User).cached ==> final(self).users_view()
                == old(self).users_view().remove(entity_key(id)),
            !old(self).config().spec_settings(EntityKind::User).cached ==> final(self).users_view()
                == old(self).users_view(),
    {
        if self.config.is_cached(EntityKind::User) {
            self.users.remove(&(id as u128));
            proof {
                lemma_store_view_remove(old(self).users@, entity_key(id));
            }
        }
    }

    /// Dispatches a partial-user event.  The event carries only
    /// fixed-width fields, so a stored well-formed archive is always
    /// patched in place.
    pub fn update_user_via_partial(&mut self, id: u64, partial: &PartialUser) -> (r: Result<
        UpdateOutcome,
        CacheError,
    >)
        ensures
            same_except(*old(self), *final(self), EntityKind::User),
            !old(self).config().spec_settings(EntityKind::User).cached ==> r == Ok::<
                UpdateOutcome,
                CacheError,
            >(UpdateOutcome::Ignored) && final(self).users_view() == old(self).users_view(),
            old(self).config().spec_settings(EntityKind::User).cached && !old(self).users_view().contains_key(entity_key(id)) ==> r == Ok::<
                UpdateOutcome,
                CacheError,
            >(UpdateOutcome::Missing) && final(self).users_view() == old(self).users_view(),
            old(self).config().spec_settings(EntityKind::User).cached && old(self).users_view().contains_key(entity_key(id)) ==> {
                let stored = old(self).users_view()[entity_key(id)];
                if valid_user(stored) {
                    &&& r == Ok::<UpdateOutcome, CacheError>(UpdateOutcome::InPlace)
                    &&& final(self).users_view() == old(self).users_view().insert(
                        entity_key(id),
                        enc_user(user_apply_partial(dec_user(stored), *partial)),
                    )
                } else {
                    &&& r == Err::<UpdateOutcome, CacheError>(CacheError::Decode)
                    &&& final(self).users_view() == old(self).users_view()
                }
            },
    {
        if !self.config.is_cached(EntityKind::User) {
            return Ok(UpdateOutcome::Ignored);
        }
        let mut bytes: Vec<u8> = match self.users.get(&(id as u128)) {
            Some(v) => clone_bytes(v),
            None => {
                return Ok(UpdateOutcome::Missing);
            },
        };
        match CachedUser::update_via_partial(&mut bytes, partial) {
            Ok(_) => {
                let ghost v = bytes;
                self.users.insert(id as u128, bytes);
                proof {
                    lemma_store_view_insert(old(self).users@, entity_key(id), v);
                }
                Ok(UpdateOutcome::InPlace)
            },
            Err(e) => Err(e),
        }
    }

    /// Records that the gateway reported a guild unavailable.
    pub fn add_unavailable_guild(&mut self, id: u64)
        ensures
            final(self).config() == old(self).config(),
            final(self).channels_view() == old(self).channels_view(),
            final(self).current_user_view() == old(self).current_user_view(),
            final(self).guilds_view() == old(self).guilds_view(),
            final(self).members_view() == old(self).members_view(),
            final(self).roles_view() == old(self).roles_view(),
            final(self).users_view() == old(self).users_view(),
            final(self).unavailable_view() == old(self).unavailable_view().insert(id),
    {
        self.unavailable_guilds.insert(id);
    }

    /// Records that a guild reported unavailable is available again.
    pub fn remove_unavailable_guild(&mut self, id: u64)
        ensures
            final(self).config() == old(self).config(),
            final(self).channels_view() == old(self).channels_view(),
            final(self).current_user_view() == old(self).current_user_view(),
            final(self).guilds_view() == old(self).guilds_view(),
            final(self).members_view() == old(self).members_view(),
            final(self).roles_view() == old(self).roles_view(),
            final(self).users_view() == old(self).users_view(),
            final(self).unavailable_view() == old(self).unavailable_view().remove(id),
    {
        self.unavailable_guilds.remove(&id);
    }

    /// The read-only statistics snapshot the periodic hook reports.
    pub fn stats(&self) -> (r: CacheStats)
        ensures
            r.channel_count == self.channels_view().dom().len(),
            r.guild_count == self.guilds_view().dom().len(),
            r.role_count == self.roles_view().dom().len(),
            r.unavailable_guild_count == self.unavailable_view().len(),
            r.user_count == self.users_view().dom().len(),
    {
        proof {
            assert(self.channels_view().dom() =~= self.channels@.dom());
            assert(self.guilds_view().dom() =~= self.guilds@.dom());
            assert(self.roles_view().dom() =~= self.roles@.dom());
            assert(self.users_view().dom() =~= self.users@.dom());
        }
        CacheStats {
            channel_count: self.channels.len(),
            guild_count: self.guilds.len(),
            role_count: self.roles.len(),
            unavailable_guild_count: self.unavailable_guilds.len(),
            user_count: self.users.len(),
        }
    }
}

} // verus!
