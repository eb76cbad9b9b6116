//! Construction-time cache configuration: which entity kinds are
//! cached, their optional time-to-live, and the statistics interval.
//!
//! The configuration is consumed once when the cache facade is built
//! and never mutated afterwards; a kind that is not cached behaves as a
//! no-op whose reads always report absence.

use vstd::prelude::*;

verus! {

/// Every entity kind the cache can be asked about.  Only six of them
/// carry data; the rest are permanently ignored.
#[derive(Clone, Copy, PartialEq, Eq, Structural, Debug)]
pub enum EntityKind {
    Channel,
    CurrentUser,
    Emoji,
    Guild,
    Integration,
    Member,
    Message,
    Presence,
    Role,
    StageInstance,
    Sticker,
    User,
    VoiceState,
}

/// The per-kind decisions of the cacheable contract: whether the kind
/// is cached at all and, when it is, an optional time-to-live in
/// seconds that the backing store may use to evict the entry.
#[derive(Clone, Copy, PartialEq, Eq, Structural, Debug)]
pub struct KindSettings {
    pub cached: bool,
    pub expire_secs: Option<u64>,
}

/// How often the periodic statistics hook runs, in seconds.
pub const METRICS_INTERVAL_SECS: u64 = 30;

/// The cache configuration: one settings record per data-bearing kind,
/// plus the statistics interval.
#[derive(Clone, Copy, PartialEq, Eq, Structural, Debug)]
pub struct Config {
    pub channel: KindSettings,
    pub current_user: KindSettings,
    pub guild: KindSettings,
    pub member: KindSettings,
    pub role: KindSettings,
    pub user: KindSettings,
    pub metrics_interval_secs: u64,
}

impl Config {
    /// The settings record of a kind; permanently ignored kinds are
    /// never cached and never expire.
    pub open spec fn spec_settings(self, kind: EntityKind) -> KindSettings {
        match kind {
            EntityKind::Channel => self.channel,
            EntityKind::CurrentUser => self.current_user,
            EntityKind::Guild => self.guild,
            EntityKind::Member => self.member,
            EntityKind::Role => self.role,
            EntityKind::User => self.user,
            _ => KindSettings { cached: false, expire_secs: None },
        }
    }

    /// Whether entities of `kind` are cached at all.
    pub fn is_cached(&self, kind: EntityKind) -> (r: bool)
        ensures
            r == self.spec_settings(kind).cached,
    {
        match kind {
            EntityKind::Channel => self.channel.cached,
            EntityKind::CurrentUser => self.current_user.cached,
            EntityKind::Guild => self.guild.cached,
            EntityKind::Member => self.member.cached,
            EntityKind::Role => self.role.cached,
            EntityKind::User => self.user.cached,
            _ => false,
        }
    }

    /// The time-to-live the backing store should apply to entries of
    /// `kind`; `None` means the entry never expires.
    pub fn expire_secs(&self, kind: EntityKind) -> (r: Option<u64>)
        ensures
            r == self.spec_settings(kind).expire_secs,
    {
        match kind {
            EntityKind::Channel => self.channel.expire_secs,
            EntityKind::CurrentUser => self.current_user.expire_secs,
            EntityKind::Guild => self.guild.expire_secs,
            EntityKind::Member => self.member.expire_secs,
            EntityKind::Role => self.role.expire_secs,
            EntityKind::User => self.user.expire_secs,
            _ => None,
        }
    }

    /// The default configuration: all six data-bearing kinds cached as
    /// authoritative live-state mirrors, so none of them expires.
    pub fn new() -> (c: Config)
        ensures
            forall|kind: EntityKind| match kind {
                EntityKind::Channel
                | EntityKind::CurrentUser
                | EntityKind::Guild
                | EntityKind::Member
                | EntityKind::Role
                | EntityKind::User => #[trigger] c.spec_settings(kind) == (KindSettings {
                    cached: true,
                    expire_secs: None::<u64>,
                }),
                _ => c.spec_settings(kind) == (KindSettings {
                    cached: false,
                    expire_secs: None::<u64>,
                }),
            },
            c.metrics_interval_secs == METRICS_INTERVAL_SECS,
    {
        let on = KindSettings { cached: true, expire_secs: None };
        Config {
            channel: on,
            current_user: on,
            guild: on,
            member: on,
            role: on,
            user: on,
            metrics_interval_secs: METRICS_INTERVAL_SECS,
        }
    }
}

} // verus!
