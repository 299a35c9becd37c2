//! The response envelope, the Logic layer's read paths with their access
//! rules, the guild-list fold, and the REST response decoders.

use std::collections::HashMap;

use dem_core::discord::{
    decode_discord_user, decode_user_guilds, fold_guild_permissions, LoggedUser, Logic,
};
use dem_core::error::{Error, Rsp};
use dem_core::types::{PartialGuild, PartialGuildWithPermission, UserLogin};

fn logic() -> Logic {
    Logic::new(
        "SECRET-REDACTED".to_string(),
        "SECRET-REDACTED".to_string(),
        "/tmp/scratch".to_string(),
        8,
    )
}

fn guild(id: u64, name: &str) -> PartialGuild {
    PartialGuild {
        id,
        name: name.to_string(),
        icon: String::new(),
        emojis: Vec::new(),
        stickers: Vec::new(),
        description: None,
        members: Vec::new(),
    }
}

fn session_for(user_id: u64, guilds: HashMap<u64, u64>) -> LoggedUser {
    LoggedUser {
        expires_at: 10_000,
        user_id,
        user_icon: None,
        username: "u".to_string(),
        discriminator: "0001".to_string(),
        guilds,
    }
}

#[test]
fn error_codes_and_descriptions() {
    assert_eq!(Error::Internal.code(), 0);
    assert_eq!(Error::DiscordAPI.code(), 1);
    assert_eq!(Error::Unauthorized.code(), 2);
    assert_eq!(Error::InvalidRequest.code(), 3);
    assert_eq!(Error::Internal.default_description(), "internal error");
    let body = Error::DiscordAPI.into_err_with_desc(Some("detail".to_string()));
    assert_eq!(body.err.code, Error::DiscordAPI);
    assert_eq!(body.err.description, "detail");
    let plain = Error::Unauthorized.into_err();
    assert_eq!(plain.err.description, "not authorized");
}

#[test]
fn response_envelope() {
    let ok: Rsp<u64> = Rsp::ok(5);
    match ok {
        Rsp::Success(body) => assert_eq!(body.ok, 5),
        Rsp::Failure(_) => panic!("expected success"),
    }
    let err: Rsp<u64> = Rsp::err(Error::Internal, None);
    match err {
        Rsp::Failure(body) => assert_eq!(body.err.code, Error::Internal),
        Rsp::Success(_) => panic!("expected failure"),
    }
}

#[test]
fn guild_emojis_require_a_cached_member() {
    let mut logic = logic();
    logic.guilds.upsert(42, guild(42, "g"));
    // no session for the token
    match logic.get_guild_emojis(&"t".to_string(), 42) {
        Rsp::Failure(b) => assert_eq!(b.err.code, Error::Unauthorized),
        Rsp::Success(_) => panic!("expected failure"),
    }
    // a session that is not in the guild
    logic
        .sessions
        .insert_or_refresh("t".to_string(), session_for(7, HashMap::new()));
    match logic.get_guild_emojis(&"t".to_string(), 42) {
        Rsp::Failure(b) => {
            assert_eq!(b.err.code, Error::Unauthorized);
            assert_eq!(b.err.description, "Not in the guild");
        }
        Rsp::Success(_) => panic!("expected failure"),
    }
    // a member of a guild the gateway has not delivered
    let mut in_guild = HashMap::new();
    in_guild.insert(41u64, 8u64);
    logic
        .sessions
        .insert_or_refresh("t2".to_string(), session_for(8, in_guild));
    match logic.get_guild_emojis(&"t2".to_string(), 41) {
        Rsp::Failure(b) => assert_eq!(b.err.code, Error::Internal),
        Rsp::Success(_) => panic!("expected failure"),
    }
    // a member of a delivered guild
    let mut member = HashMap::new();
    member.insert(42u64, 8u64);
    logic
        .sessions
        .insert_or_refresh("t3".to_string(), session_for(9, member));
    match logic.get_guild_emojis(&"t3".to_string(), 42) {
        Rsp::Success(body) => assert_eq!(body.ok, Vec::new()),
        Rsp::Failure(_) => panic!("expected success"),
    }
}

#[test]
fn guild_stickers_follow_the_same_rule() {
    let mut logic = logic();
    logic.guilds.upsert(42, guild(42, "g"));
    let mut member = HashMap::new();
    member.insert(42u64, 8u64);
    logic
        .sessions
        .insert_or_refresh("t".to_string(), session_for(9, member));
    match logic.get_guild_stickers(&"t".to_string(), 42) {
        Rsp::Success(body) => assert_eq!(body.ok, Vec::new()),
        Rsp::Failure(_) => panic!("expected success"),
    }
}

#[test]
fn overlapping_guilds_intersects_cache_and_user_list() {
    let mut logic = logic();
    logic.guilds.upsert(1, guild(1, "one"));
    logic.guilds.upsert(2, guild(2, "two"));
    let mut mine = HashMap::new();
    mine.insert(2u64, 16u64);
    mine.insert(3u64, 4u64);
    let out = logic.overlapping_guilds(&mine);
    assert_eq!(out.len(), 1);
    assert_eq!(out[0].id, 2);
    assert_eq!(out[0].name, "two");
    assert_eq!(out[0].permissions, 16);
}

#[test]
fn owner_flag_folds_into_reserved_bit() {
    let items = vec![(1u64, 0u64, true), (2u64, 16u64, false), (3u64, 2u64, true)];
    let map = fold_guild_permissions(&items);
    assert_eq!(map.get(&1), Some(&8));
    assert_eq!(map.get(&2), Some(&16));
    assert_eq!(map.get(&3), Some(&10));
}

#[test]
fn decodes_rest_responses() {
    let user = decode_discord_user(
        "{\"id\":\"77\",\"username\":\"ada\",\"discriminator\":\"0007\",\"avatar\":null}",
    )
    .unwrap();
    assert_eq!(user.id, 77);
    assert_eq!(user.username, "ada");
    assert_eq!(user.avatar, None);
    assert!(decode_discord_user("{\"id\":77}").is_none());

    let guilds = decode_user_guilds(
        "[{\"id\":\"1\",\"permissions\":\"8\",\"owner\":false},{\"id\":\"2\",\"permissions\":\"0\",\"owner\":true}]",
    )
    .unwrap();
    assert_eq!(guilds, vec![(1, 8, false), (2, 0, true)]);
    assert!(decode_user_guilds("{\"not\":\"an array\"}").is_none());
}

#[test]
fn pairs_guild_with_permission() {
    let g = guild(5, "five");
    let paired = PartialGuildWithPermission::from_partial_guild(g, 12);
    assert_eq!(paired.id, 5);
    assert_eq!(paired.name, "five");
    assert_eq!(paired.permissions, 12);
}

#[test]
fn bot_credential_header() {
    let logic = logic();
    assert_eq!(logic.get_token(), "BOT SECRET-REDACTED");
    assert_eq!(logic.discord_token(), "SECRET-REDACTED");
}

#[test]
fn dev_endpoints_default_to_empty_lists() {
    let mut logic = logic();
    assert!(logic.get_emojis(42).is_empty());
    assert!(logic.get_stickers(42).is_empty());
    logic.guilds.upsert(42, guild(42, "g"));
    assert!(logic.get_emojis(42).is_empty());
    let mut g = guild(43, "h");
    g.emojis.push(dem_core::types::EmojiItem {
        id: 5,
        animated: false,
        available: true,
        managed: false,
        name: "smile".to_string(),
    });
    logic.guilds.upsert(43, g);
    assert_eq!(logic.get_emojis(43).len(), 1);
    assert_eq!(logic.get_emojis(43)[0].name, "smile");
}

#[test]
fn login_block_from_profile() {
    let user = dem_core::discord::DiscordUser {
        id: 9,
        username: "ada".to_string(),
        discriminator: "0009".to_string(),
        avatar: Some("av".to_string()),
    };
    let login = UserLogin::from_discord_user(user);
    assert_eq!(login.id, 9);
    assert_eq!(login.avatar.as_deref(), Some("av"));
    assert_eq!(login.username, "ada");
}

#[test]
fn user_login_record() {
    let login = UserLogin {
        id: 1,
        avatar: Some("av".to_string()),
        username: "n".to_string(),
        discriminator: "0001".to_string(),
    };
    assert_eq!(login.clone(), login);
}
