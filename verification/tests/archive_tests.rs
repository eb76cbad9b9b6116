use bathbot_cache::channel::{CachedChannel, ChannelKind, CHANNEL_KIND_OFF};
use bathbot_cache::codec::ImageHash;
use bathbot_cache::current_user::CachedCurrentUser;
use bathbot_cache::guild::{CachedGuild, GUILD_NAME_CONTENT_OFF};
use bathbot_cache::member::CachedMember;
use bathbot_cache::overwrite::{
    put_overwrite_list, read_overwrite_list_at, OverwriteKind, PermissionOverwrite,
    PermissionOverwriteRkyv, OVERWRITE_SIZE,
};
use bathbot_cache::role::CachedRole;
use bathbot_cache::user::{CachedUser, PartialUser};
use bathbot_cache::{CacheError, PatchMode};

fn sample_hash(seed: u64) -> ImageHash {
    ImageHash { lo: seed, hi: seed.wrapping_mul(31), animated: seed % 2 == 1 }
}

fn sample_guild() -> CachedGuild {
    CachedGuild {
        icon: Some(sample_hash(7)),
        id: 1234567890123456789,
        name: b"verification guild".to_vec(),
        owner_id: 42,
        permissions: Some(0x3f),
    }
}

#[test]
fn guild_round_trip() {
    let guild = sample_guild();
    let bytes = guild.encode();
    let back = CachedGuild::decode(&bytes).unwrap();
    assert_eq!(back, sample_guild());
}

#[test]
fn guild_round_trip_minimal() {
    let guild = CachedGuild {
        icon: None,
        id: 0,
        name: Vec::new(),
        owner_id: 0,
        permissions: None,
    };
    let bytes = guild.encode();
    assert_eq!(bytes.len(), GUILD_NAME_CONTENT_OFF);
    let back = CachedGuild::decode(&bytes).unwrap();
    assert_eq!(back.icon, None);
    assert_eq!(back.name, Vec::<u8>::new());
    assert_eq!(back.permissions, None);
}

#[test]
fn guild_decode_rejects_short_buffer() {
    let bytes = vec![0u8; 10];
    assert_eq!(CachedGuild::decode(&bytes), Err(CacheError::Decode));
}

#[test]
fn guild_decode_rejects_wrong_length_field() {
    let guild = sample_guild();
    let mut bytes = guild.encode();
    // shorten the buffer so the stated name length runs past the end
    bytes.pop();
    assert_eq!(CachedGuild::decode(&bytes), Err(CacheError::Decode));
}

#[test]
fn guild_decode_rejects_noncanonical_absent_icon() {
    let guild = CachedGuild { icon: None, ..sample_guild() };
    let mut bytes = guild.encode();
    // absent icon must keep an all-zero payload
    bytes[5] = 9;
    assert_eq!(CachedGuild::decode(&bytes), Err(CacheError::Decode));
}

#[test]
fn guild_update_in_place_keeps_length_and_name() {
    let guild = sample_guild();
    let mut bytes = guild.encode();
    let before_len = bytes.len();
    let update = CachedGuild {
        icon: Some(sample_hash(9)),
        id: guild.id,
        name: guild.name.clone(),
        owner_id: 77,
        permissions: None,
    };
    let mode = CachedGuild::update(&mut bytes, &update).unwrap();
    assert_eq!(mode, PatchMode::InPlace);
    assert_eq!(bytes.len(), before_len);
    let back = CachedGuild::decode(&bytes).unwrap();
    assert_eq!(back.owner_id, 77);
    assert_eq!(back.icon, Some(sample_hash(9)));
    assert_eq!(back.permissions, None);
    assert_eq!(back.name, guild.name);
}

#[test]
fn guild_update_noop_leaves_bytes_identical() {
    let guild = sample_guild();
    let mut bytes = guild.encode();
    let before = bytes.clone();
    let mode = CachedGuild::update(&mut bytes, &guild).unwrap();
    assert_eq!(mode, PatchMode::InPlace);
    assert_eq!(bytes, before);
}

#[test]
fn guild_update_rename_takes_rewrite_path() {
    let guild = CachedGuild {
        icon: None,
        id: 10,
        name: b"Abc".to_vec(),
        owner_id: 5,
        permissions: None,
    };
    let mut bytes = guild.encode();
    let update = CachedGuild {
        icon: None,
        id: 10,
        name: b"Abcdef".to_vec(),
        owner_id: 5,
        permissions: None,
    };
    let mode = CachedGuild::update(&mut bytes, &update).unwrap();
    assert_eq!(mode, PatchMode::Rewrite);
    let back = CachedGuild::decode(&bytes).unwrap();
    assert_eq!(back.name, b"Abcdef".to_vec());
    assert_eq!(back.owner_id, 5);
    assert_eq!(back.id, 10);
}

#[test]
fn guild_update_both_paths_agree() {
    // same starting archive, same patch with an unchanged name: the
    // in-place path and a manual decode-mutate-re-encode round trip
    // must produce identical bytes
    let guild = sample_guild();
    let update = CachedGuild {
        icon: None,
        id: guild.id,
        name: guild.name.clone(),
        owner_id: 4040,
        permissions: Some(1),
    };
    let mut patched = guild.encode();
    let mode = CachedGuild::update(&mut patched, &update).unwrap();
    assert_eq!(mode, PatchMode::InPlace);

    let mut owned = CachedGuild::decode(&guild.encode()).unwrap();
    owned.apply_update(&update);
    let rebuilt = owned.encode();
    assert_eq!(patched, rebuilt);
}

#[test]
fn guild_update_rejects_malformed_archive_untouched() {
    let mut bytes = vec![1u8; 60];
    let before = bytes.clone();
    let r = CachedGuild::update(&mut bytes, &sample_guild());
    assert_eq!(r, Err(CacheError::Decode));
    assert_eq!(bytes, before);
}

#[test]
fn user_round_trip() {
    let user = CachedUser {
        avatar: Some(sample_hash(3)),
        bot: true,
        discriminator: 4242,
        id: 987654321,
        name: b"numberone".to_vec(),
    };
    let bytes = user.encode();
    let back = CachedUser::decode(&bytes).unwrap();
    assert_eq!(back, user);
}

#[test]
fn user_decode_rejects_bad_bot_byte() {
    let user = CachedUser {
        avatar: None,
        bot: false,
        discriminator: 1,
        id: 2,
        name: b"x".to_vec(),
    };
    let mut bytes = user.encode();
    bytes[18] = 2;
    assert_eq!(CachedUser::decode(&bytes), Err(CacheError::Decode));
}

#[test]
fn user_partial_update_is_always_in_place() {
    let user = CachedUser {
        avatar: None,
        bot: false,
        discriminator: 1111,
        id: 31337,
        name: b"someone".to_vec(),
    };
    let mut bytes = user.encode();
    let before_len = bytes.len();
    let partial = PartialUser { avatar: Some(sample_hash(8)), discriminator: 2222 };
    CachedUser::update_via_partial(&mut bytes, &partial).unwrap();
    assert_eq!(bytes.len(), before_len);
    let back = CachedUser::decode(&bytes).unwrap();
    assert_eq!(back.avatar, Some(sample_hash(8)));
    assert_eq!(back.discriminator, 2222);
    assert_eq!(back.bot, false);
    assert_eq!(back.id, 31337);
    assert_eq!(back.name, b"someone".to_vec());
}

#[test]
fn user_partial_update_noop_leaves_bytes_identical() {
    let user = CachedUser {
        avatar: Some(sample_hash(5)),
        bot: true,
        discriminator: 77,
        id: 9,
        name: b"same".to_vec(),
    };
    let mut bytes = user.encode();
    let before = bytes.clone();
    let partial = PartialUser { avatar: user.avatar, discriminator: user.discriminator };
    CachedUser::update_via_partial(&mut bytes, &partial).unwrap();
    assert_eq!(bytes, before);
}

#[test]
fn current_user_round_trip() {
    let me = CachedCurrentUser {
        avatar: None,
        discriminator: 1,
        id: 55555,
        name: b"the-bot".to_vec(),
    };
    let bytes = me.encode();
    let back = CachedCurrentUser::decode(&bytes).unwrap();
    assert_eq!(back, me);
}

#[test]
fn role_round_trip_with_negative_position() {
    let role = CachedRole {
        id: 777,
        name: b"moderators".to_vec(),
        permissions: 0xdeadbeef,
        position: -3,
    };
    let bytes = role.encode();
    let back = CachedRole::decode(&bytes).unwrap();
    assert_eq!(back, role);
}

#[test]
fn member_round_trip() {
    let member = CachedMember {
        avatar: Some(sample_hash(11)),
        nick: Some(b"nicky".to_vec()),
        roles: vec![1, 2, 3, u64::MAX],
    };
    let bytes = member.encode();
    let back = CachedMember::decode(&bytes).unwrap();
    assert_eq!(back, member);
}

#[test]
fn member_round_trip_without_nick() {
    let member = CachedMember { avatar: None, nick: None, roles: Vec::new() };
    let bytes = member.encode();
    let back = CachedMember::decode(&bytes).unwrap();
    assert_eq!(back, member);
}

#[test]
fn member_update_in_place_when_nick_and_roles_match() {
    let member = CachedMember {
        avatar: None,
        nick: Some(b"old nick".to_vec()),
        roles: vec![5, 6],
    };
    let mut bytes = member.encode();
    let before_len = bytes.len();
    let update = CachedMember {
        avatar: Some(sample_hash(2)),
        nick: Some(b"old nick".to_vec()),
        roles: vec![5, 6],
    };
    let mode = CachedMember::update(&mut bytes, &update).unwrap();
    assert_eq!(mode, PatchMode::InPlace);
    assert_eq!(bytes.len(), before_len);
    let back = CachedMember::decode(&bytes).unwrap();
    assert_eq!(back, update);
}

#[test]
fn member_update_noop_leaves_bytes_identical() {
    let member = CachedMember {
        avatar: Some(sample_hash(6)),
        nick: Some(b"same nick".to_vec()),
        roles: vec![9, 8, 7],
    };
    let mut bytes = member.encode();
    let before = bytes.clone();
    let update = CachedMember {
        avatar: Some(sample_hash(6)),
        nick: Some(b"same nick".to_vec()),
        roles: vec![9, 8, 7],
    };
    let mode = CachedMember::update(&mut bytes, &update).unwrap();
    assert_eq!(mode, PatchMode::InPlace);
    assert_eq!(bytes, before);
}

#[test]
fn member_update_rewrites_when_roles_change() {
    let member = CachedMember {
        avatar: None,
        nick: Some(b"nick".to_vec()),
        roles: vec![5, 6],
    };
    let mut bytes = member.encode();
    let update = CachedMember {
        avatar: None,
        nick: Some(b"nick".to_vec()),
        roles: vec![5, 6, 7],
    };
    let mode = CachedMember::update(&mut bytes, &update).unwrap();
    assert_eq!(mode, PatchMode::Rewrite);
    let back = CachedMember::decode(&bytes).unwrap();
    assert_eq!(back, update);
}

#[test]
fn member_update_rewrites_when_nick_cleared() {
    let member = CachedMember {
        avatar: Some(sample_hash(4)),
        nick: Some(b"nick".to_vec()),
        roles: vec![],
    };
    let mut bytes = member.encode();
    let update = CachedMember { avatar: Some(sample_hash(4)), nick: None, roles: vec![] };
    let mode = CachedMember::update(&mut bytes, &update).unwrap();
    assert_eq!(mode, PatchMode::Rewrite);
    let back = CachedMember::decode(&bytes).unwrap();
    assert_eq!(back, update);
}

#[test]
fn channel_round_trip_full() {
    let overwrites = vec![
        PermissionOverwrite { allow: 1, deny: 2, id: 3, kind: OverwriteKind::Role },
        PermissionOverwrite { allow: 4, deny: 5, id: 6, kind: OverwriteKind::Member },
    ];
    let channel = CachedChannel {
        guild_id: Some(11),
        id: 22,
        kind: ChannelKind::GuildVoice,
        name: Some(b"general".to_vec()),
        parent_id: None,
        permission_overwrites: Some(overwrites.clone()),
        position: Some(-1),
    };
    let bytes = channel.encode();
    let back = CachedChannel::decode(&bytes).unwrap();
    assert_eq!(back, channel);
}

#[test]
fn channel_round_trip_minimal() {
    let channel = CachedChannel {
        guild_id: None,
        id: 1,
        kind: ChannelKind::Private,
        name: None,
        parent_id: None,
        permission_overwrites: None,
        position: None,
    };
    let bytes = channel.encode();
    let back = CachedChannel::decode(&bytes).unwrap();
    assert_eq!(back, channel);
}

#[test]
fn channel_decode_rejects_unknown_kind_tag() {
    let channel = CachedChannel {
        guild_id: None,
        id: 1,
        kind: ChannelKind::GuildText,
        name: None,
        parent_id: None,
        permission_overwrites: None,
        position: None,
    };
    let mut bytes = channel.encode();
    // 6 is not the tag of any channel kind
    bytes[CHANNEL_KIND_OFF] = 6;
    assert_eq!(CachedChannel::decode(&bytes), Err(CacheError::Decode));
}

#[test]
fn overwrite_record_resolve_at_offset() {
    let record = PermissionOverwrite {
        allow: 0x11,
        deny: 0x22,
        id: 0x33,
        kind: OverwriteKind::Member,
    };
    let mut buf = vec![0u8; 100];
    PermissionOverwriteRkyv::resolve_with(&record, 40, &mut buf);
    let read = PermissionOverwriteRkyv::deserialize_with(&buf, 40).unwrap();
    assert_eq!(read, record);
    // bytes outside the record are untouched
    assert_eq!(buf[39], 0);
    assert_eq!(buf[40 + OVERWRITE_SIZE], 0);
}

#[test]
fn overwrite_record_rejects_unknown_kind_byte() {
    let mut buf = vec![0u8; OVERWRITE_SIZE];
    buf[OVERWRITE_SIZE - 1] = 7;
    assert_eq!(PermissionOverwriteRkyv::deserialize_with(&buf, 0), None);
}

#[test]
fn three_overwrites_pack_back_to_back() {
    let records = vec![
        PermissionOverwrite { allow: 0x1, deny: 0x10, id: 100, kind: OverwriteKind::Role },
        PermissionOverwrite { allow: 0x2, deny: 0x20, id: 200, kind: OverwriteKind::Member },
        PermissionOverwrite { allow: 0x3, deny: 0x30, id: 300, kind: OverwriteKind::Role },
    ];
    let mut buf: Vec<u8> = Vec::new();
    put_overwrite_list(&mut buf, &records);
    assert_eq!(buf.len(), 8 + 3 * OVERWRITE_SIZE);
    // record i occupies exactly the record-size bytes starting at
    // i * record size, after the 8-byte count
    for (i, record) in records.iter().enumerate() {
        let mut single: Vec<u8> = Vec::new();
        PermissionOverwriteRkyv::serialize_with(record, &mut single);
        let off = 8 + i * OVERWRITE_SIZE;
        assert_eq!(&buf[off..off + OVERWRITE_SIZE], single.as_slice());
    }
    let (back, end) = read_overwrite_list_at(&buf, 0).unwrap();
    assert_eq!(end, buf.len());
    assert_eq!(back, records);
}
