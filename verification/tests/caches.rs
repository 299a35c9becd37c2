//! The guild cache's last-writer-wins behaviour and the session cache's
//! invariant: bounded recency eviction, the reverse index, TTL sweeps, and
//! reconciliation after guild-create events.

use std::collections::HashMap;

use dem_core::discord::LoggedUser;
use dem_core::guild_cache::{GuildCache, GuildEvent};
use dem_core::session_cache::SessionCache;
use dem_core::types::{GuildMember, PartialGuild, User};

fn guild(id: u64, name: &str, members: Vec<GuildMember>) -> PartialGuild {
    PartialGuild {
        id,
        name: name.to_string(),
        icon: String::new(),
        emojis: Vec::new(),
        stickers: Vec::new(),
        description: None,
        members,
    }
}

fn session(user_id: u64, expires_at: u64) -> LoggedUser {
    LoggedUser {
        expires_at,
        user_id,
        user_icon: None,
        username: format!("user{}", user_id),
        discriminator: "0001".to_string(),
        guilds: HashMap::new(),
    }
}

#[test]
fn guild_cache_last_writer_wins() {
    let mut cache = GuildCache::new();
    cache.apply_event(&GuildEvent::Create(guild(1, "first", Vec::new())));
    cache.apply_event(&GuildEvent::Create(guild(1, "second", Vec::new())));
    assert_eq!(cache.get(1).unwrap().name, "second");
    cache.apply_event(&GuildEvent::Delete(1));
    assert!(cache.get(1).is_none());
    // removing an absent id is not an error
    cache.apply_event(&GuildEvent::Delete(1));
    assert!(cache.get(1).is_none());
}

#[test]
fn guild_cache_event_sequences() {
    let mut cache = GuildCache::new();
    let events = vec![
        GuildEvent::Create(guild(1, "one", Vec::new())),
        GuildEvent::Create(guild(2, "two", Vec::new())),
        GuildEvent::Delete(1),
        GuildEvent::Create(guild(2, "two-b", Vec::new())),
        GuildEvent::Create(guild(2, "two-b", Vec::new())),
    ];
    cache.apply_events(&events);
    assert!(cache.get(1).is_none());
    assert_eq!(cache.get(2).unwrap().name, "two-b");
    let entries = cache.entries();
    assert_eq!(entries.len(), 1);
    assert_eq!(entries[0].0, 2);
}

#[test]
fn capacity_one_eviction_clears_both_structures() {
    // capacity-1 cache: inserting "b" after "a" evicts "a" everywhere
    let mut sessions = SessionCache::new(1);
    sessions.insert_or_refresh("a".to_string(), session(1, 10_000));
    sessions.insert_or_refresh("b".to_string(), session(7, 10_000));
    assert!(sessions.get(&"a".to_string()).is_none());
    assert!(sessions.lookup_token_by_user(1).is_none());
    let b = sessions.get(&"b".to_string()).unwrap();
    assert_eq!(b.user_id, 7);
    assert_eq!(sessions.lookup_token_by_user(7).unwrap(), "b");
}

#[test]
fn recency_protects_recently_used_entries() {
    let mut sessions = SessionCache::new(2);
    sessions.insert_or_refresh("a".to_string(), session(1, 10_000));
    sessions.insert_or_refresh("b".to_string(), session(2, 10_000));
    // a use moves "a" to the front, so the next eviction hits "b"
    assert!(sessions.get(&"a".to_string()).is_some());
    sessions.insert_or_refresh("c".to_string(), session(3, 10_000));
    assert!(sessions.get(&"a".to_string()).is_some());
    assert!(sessions.get(&"b".to_string()).is_none());
    assert!(sessions.lookup_token_by_user(2).is_none());
    assert!(sessions.get(&"c".to_string()).is_some());
}

#[test]
fn same_user_relogin_replaces_old_token() {
    let mut sessions = SessionCache::new(8);
    sessions.insert_or_refresh("old".to_string(), session(5, 10_000));
    sessions.insert_or_refresh("new".to_string(), session(5, 20_000));
    assert!(sessions.get(&"old".to_string()).is_none());
    assert_eq!(sessions.lookup_token_by_user(5).unwrap(), "new");
}

#[test]
fn remove_clears_reverse_entry() {
    let mut sessions = SessionCache::new(4);
    sessions.insert_or_refresh("t".to_string(), session(9, 10_000));
    let removed = sessions.remove(&"t".to_string()).unwrap();
    assert_eq!(removed.user_id, 9);
    assert!(sessions.get(&"t".to_string()).is_none());
    assert!(sessions.lookup_token_by_user(9).is_none());
    // removing an absent token changes nothing
    assert!(sessions.remove(&"t".to_string()).is_none());
}

#[test]
fn sweep_evicts_expired_entries_from_both_structures() {
    let mut sessions = SessionCache::new(8);
    sessions.insert_or_refresh("dead".to_string(), session(1, 1_000));
    sessions.insert_or_refresh("alive".to_string(), session(2, 99_000));
    sessions.insert_or_refresh("dying".to_string(), session(3, 50_000));
    sessions.sweep_expired(50_000);
    assert!(sessions.get(&"dead".to_string()).is_none());
    assert!(sessions.lookup_token_by_user(1).is_none());
    assert!(sessions.get(&"dying".to_string()).is_none());
    assert!(sessions.lookup_token_by_user(3).is_none());
    let alive = sessions.get(&"alive".to_string()).unwrap();
    assert_eq!(alive.user_id, 2);
    assert_eq!(sessions.lookup_token_by_user(2).unwrap(), "alive");
}

#[test]
fn reconciliation_writes_permission_bits() {
    // guild 42 sends a create naming user 7 with permission bits 8 while
    // user 7's token "abc" is cached with no known guilds
    let mut sessions = SessionCache::new(8);
    sessions.insert_or_refresh("abc".to_string(), session(7, 10_000));
    let g = guild(
        42,
        "g",
        vec![GuildMember { user: User { id: 7 }, permissions: 8 }],
    );
    sessions.reconcile_guild_create(&g);
    let u = sessions.get(&"abc".to_string()).unwrap();
    assert_eq!(u.guilds.get(&42), Some(&8));
}

#[test]
fn reconciliation_skips_unknown_users_and_keeps_sessions() {
    let mut sessions = SessionCache::new(8);
    sessions.insert_or_refresh("abc".to_string(), session(7, 10_000));
    let g = guild(
        42,
        "g",
        vec![
            GuildMember { user: User { id: 99 }, permissions: 4 },
            GuildMember { user: User { id: 7 }, permissions: 2 },
            GuildMember { user: User { id: 7 }, permissions: 16 },
        ],
    );
    sessions.reconcile_guild_create(&g);
    let u = sessions.get(&"abc".to_string()).unwrap();
    // the last record of a user wins
    assert_eq!(u.guilds.get(&42), Some(&16));
    assert!(sessions.lookup_token_by_user(99).is_none());
}
