use bathbot_cache::cache::{Cache, UpdateOutcome};
use bathbot_cache::codec::ImageHash;
use bathbot_cache::config::{Config, EntityKind, KindSettings};
use bathbot_cache::current_user::CachedCurrentUser;
use bathbot_cache::guild::CachedGuild;
use bathbot_cache::member::CachedMember;
use bathbot_cache::role::CachedRole;
use bathbot_cache::user::{CachedUser, PartialUser};

fn guild(id: u64, name: &[u8], owner_id: u64) -> CachedGuild {
    CachedGuild { icon: None, id, name: name.to_vec(), owner_id, permissions: None }
}

#[test]
fn store_then_fetch_returns_the_archive() {
    let mut cache = Cache::new(Config::new());
    let g = guild(1, b"alpha", 10);
    cache.store_guild_from_live(&g);
    let bytes = cache.fetch_guild(1).unwrap();
    assert_eq!(bytes, g.encode());
    assert!(cache.fetch_guild(2).is_none());
}

#[test]
fn remove_makes_fetch_report_absence() {
    let mut cache = Cache::new(Config::new());
    cache.store_guild_from_live(&guild(1, b"alpha", 10));
    cache.remove_guild(1);
    assert!(cache.fetch_guild(1).is_none());
}

#[test]
fn ignored_kind_store_then_fetch_is_absent() {
    let mut config = Config::new();
    config.member = KindSettings { cached: false, expire_secs: None };
    let mut cache = Cache::new(config);
    let member = CachedMember { avatar: None, nick: None, roles: vec![1] };
    cache.store_member_from_live(7, 8, &member);
    assert!(cache.fetch_member(7, 8).is_none());
    cache.store_member_from_live(7, 8, &member);
    assert!(cache.fetch_member(7, 8).is_none());
    assert!(!cache.is_kind_cached(EntityKind::Member));
    // a permanently ignored kind reports the same
    assert!(!cache.is_kind_cached(EntityKind::Sticker));
}

#[test]
fn guild_update_event_scenario() {
    // archive {id: 10, name: "Foo", owner_id: 1, icon: None, permissions: None}
    let mut cache = Cache::new(Config::new());
    cache.store_guild_from_live(&guild(10, b"Foo", 1));

    // event with the same name: in-place path, fixed fields all change
    let hash = ImageHash { lo: 5, hi: 6, animated: false };
    let event = CachedGuild {
        icon: Some(hash),
        id: 10,
        name: b"Foo".to_vec(),
        owner_id: 2,
        permissions: Some(0x8),
    };
    let outcome = cache.update_guild(10, &event).unwrap();
    assert_eq!(outcome, UpdateOutcome::InPlace);
    let decoded = CachedGuild::decode(&cache.fetch_guild(10).unwrap()).unwrap();
    assert_eq!(decoded, event);

    // a second event renaming the guild: rewrite path, all fields land
    let renamed = CachedGuild {
        icon: Some(hash),
        id: 10,
        name: b"Bar".to_vec(),
        owner_id: 2,
        permissions: Some(0x8),
    };
    let outcome = cache.update_guild(10, &renamed).unwrap();
    assert_eq!(outcome, UpdateOutcome::Rewritten);
    let decoded = CachedGuild::decode(&cache.fetch_guild(10).unwrap()).unwrap();
    assert_eq!(decoded, renamed);
}

#[test]
fn guild_resize_keeps_fixed_fields() {
    let mut cache = Cache::new(Config::new());
    cache.store_guild_from_live(&guild(3, b"Abc", 99));
    let event = guild(3, b"Abcdef", 99);
    let outcome = cache.update_guild(3, &event).unwrap();
    assert_eq!(outcome, UpdateOutcome::Rewritten);
    let decoded = CachedGuild::decode(&cache.fetch_guild(3).unwrap()).unwrap();
    assert_eq!(decoded.name, b"Abcdef".to_vec());
    assert_eq!(decoded.owner_id, 99);
}

#[test]
fn archived_view_reads_fields_without_decoding() {
    let mut cache = Cache::new(Config::new());
    let hash = ImageHash { lo: 10, hi: 20, animated: true };
    let g = CachedGuild {
        icon: Some(hash),
        id: 8,
        name: b"view me".to_vec(),
        owner_id: 3,
        permissions: Some(0x10),
    };
    cache.store_guild_from_live(&g);
    let archive = cache.fetch_guild(8).unwrap();
    assert_eq!(CachedGuild::archived_id(&archive), 8);
    assert_eq!(CachedGuild::archived_owner_id(&archive), 3);
    assert_eq!(CachedGuild::archived_icon(&archive), Some(hash));
    assert_eq!(CachedGuild::archived_permissions(&archive), Some(0x10));
    assert_eq!(CachedGuild::archived_name(&archive), b"view me");
}

#[test]
fn update_of_missing_entry_reports_missing() {
    let mut cache = Cache::new(Config::new());
    let outcome = cache.update_guild(404, &guild(404, b"x", 1)).unwrap();
    assert_eq!(outcome, UpdateOutcome::Missing);
}

#[test]
fn update_of_ignored_kind_reports_ignored() {
    let mut config = Config::new();
    config.guild = KindSettings { cached: false, expire_secs: None };
    let mut cache = Cache::new(config);
    let outcome = cache.update_guild(1, &guild(1, b"x", 1)).unwrap();
    assert_eq!(outcome, UpdateOutcome::Ignored);
}

#[test]
fn member_update_through_facade() {
    let mut cache = Cache::new(Config::new());
    let member = CachedMember { avatar: None, nick: Some(b"n".to_vec()), roles: vec![4] };
    cache.store_member_from_live(1, 2, &member);
    let update = CachedMember {
        avatar: Some(ImageHash { lo: 1, hi: 2, animated: true }),
        nick: Some(b"n".to_vec()),
        roles: vec![4],
    };
    let outcome = cache.update_member(1, 2, &update).unwrap();
    assert_eq!(outcome, UpdateOutcome::InPlace);
    let decoded = CachedMember::decode(&cache.fetch_member(1, 2).unwrap()).unwrap();
    assert_eq!(decoded, update);
    // the member of another guild with the same user id is untouched
    assert!(cache.fetch_member(2, 2).is_none());
}

#[test]
fn user_partial_update_through_facade() {
    let mut cache = Cache::new(Config::new());
    let user = CachedUser {
        avatar: None,
        bot: false,
        discriminator: 1,
        id: 50,
        name: b"u".to_vec(),
    };
    cache.store_user_from_live(&user);
    let partial = PartialUser { avatar: None, discriminator: 9 };
    let outcome = cache.update_user_via_partial(50, &partial).unwrap();
    assert_eq!(outcome, UpdateOutcome::InPlace);
    let decoded = CachedUser::decode(&cache.fetch_user(50).unwrap()).unwrap();
    assert_eq!(decoded.discriminator, 9);
    assert_eq!(decoded.name, b"u".to_vec());
}

#[test]
fn channel_pins_update_is_a_no_op() {
    let mut cache = Cache::new(Config::new());
    let outcome = cache.on_channel_pins_update(123).unwrap();
    assert_eq!(outcome, UpdateOutcome::Ignored);
}

#[test]
fn current_user_store_and_fetch() {
    let mut cache = Cache::new(Config::new());
    assert!(cache.fetch_current_user().is_none());
    let me = CachedCurrentUser { avatar: None, discriminator: 0, id: 1, name: b"me".to_vec() };
    cache.store_current_user_from_live(&me);
    assert_eq!(cache.fetch_current_user().unwrap(), me.encode());
}

#[test]
fn stats_count_each_store() {
    let mut cache = Cache::new(Config::new());
    cache.store_guild_from_live(&guild(1, b"a", 1));
    cache.store_guild_from_live(&guild(2, b"b", 1));
    cache.store_guild_from_live(&guild(2, b"c", 1));
    cache.store_role_from_live(
        &CachedRole { id: 9, name: b"r".to_vec(), permissions: 0, position: 0 },
    );
    cache.store_user_from_live(
        &CachedUser { avatar: None, bot: false, discriminator: 0, id: 4, name: b"u".to_vec() },
    );
    cache.add_unavailable_guild(77);
    cache.add_unavailable_guild(77);
    let stats = cache.stats();
    assert_eq!(stats.guild_count, 2);
    assert_eq!(stats.role_count, 1);
    assert_eq!(stats.user_count, 1);
    assert_eq!(stats.channel_count, 0);
    assert_eq!(stats.unavailable_guild_count, 1);
    cache.remove_unavailable_guild(77);
    assert_eq!(cache.stats().unavailable_guild_count, 0);
}
