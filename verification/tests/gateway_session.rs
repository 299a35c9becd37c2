//! Frame decoding against real JSON text, the exact outbound control
//! frames, and the connection state machine with its resume semantics.

use dem_core::gateway::{
    decode_frame, heartbeat_json, identify_json, initial_heartbeat_json, resume_json, ConnState,
    DispatchEvent, GatewayAction, GatewayClient, GatewayFrame, ReconnectDirective, INTENTS,
};
use dem_core::guild_cache::GuildCache;
use dem_core::session_cache::SessionCache;

#[test]
fn decodes_control_frames() {
    assert_eq!(decode_frame("{\"op\":1}"), GatewayFrame::HeartbeatRequest);
    assert_eq!(decode_frame("{\"op\":11}"), GatewayFrame::HeartbeatAck);
    assert_eq!(
        decode_frame("{\"op\":10,\"d\":{\"heartbeat_interval\":41250}}"),
        GatewayFrame::Hello { heartbeat_interval: 41250 }
    );
    assert_eq!(decode_frame("{\"op\":4}"), GatewayFrame::Other { op: 4 });
    assert_eq!(decode_frame("not json"), GatewayFrame::Malformed);
    assert_eq!(decode_frame("{\"op\":10,\"d\":{}}"), GatewayFrame::Malformed);
}

#[test]
fn decodes_ready_dispatch() {
    let frame = decode_frame(
        "{\"op\":0,\"t\":\"READY\",\"s\":1,\"d\":{\"session_id\":\"deadbeef\"}}",
    );
    match frame {
        GatewayFrame::Dispatch { seq, event: DispatchEvent::Ready { session_id } } => {
            assert_eq!(seq, Some(1));
            assert_eq!(session_id.as_deref(), Some("deadbeef"));
        }
        other => panic!("unexpected frame: {:?}", other),
    }
}

#[test]
fn decodes_guild_create_dispatch() {
    let text = "{\"op\":0,\"t\":\"GUILD_CREATE\",\"s\":7,\"d\":{\"id\":\"42\",\"name\":\"g\",\"icon\":\"i\",\"description\":null,\"emojis\":[{\"id\":\"5\",\"name\":\"smile\",\"animated\":true,\"available\":true,\"managed\":false}],\"stickers\":[{\"id\":\"6\",\"name\":\"st\",\"description\":\"d\"}],\"members\":[{\"user\":{\"id\":\"7\"},\"permissions\":\"8\"},{\"user\":{\"id\":\"9\"}}]}}";
    let frame = decode_frame(text);
    match frame {
        GatewayFrame::Dispatch { seq, event: DispatchEvent::GuildCreate(g) } => {
            assert_eq!(seq, Some(7));
            assert_eq!(g.id, 42);
            assert_eq!(g.name, "g");
            assert_eq!(g.emojis.len(), 1);
            assert_eq!(g.emojis[0].id, 5);
            assert!(g.emojis[0].animated);
            assert_eq!(g.stickers[0].description.as_deref(), Some("d"));
            assert_eq!(g.members.len(), 2);
            assert_eq!(g.members[0].permissions, 8);
            // a member without permission bits defaults to none
            assert_eq!(g.members[1].permissions, 0);
        }
        other => panic!("unexpected frame: {:?}", other),
    }
}

#[test]
fn decodes_guild_delete_and_unhandled() {
    let frame = decode_frame("{\"op\":0,\"t\":\"GUILD_DELETE\",\"s\":9,\"d\":{\"id\":\"42\"}}");
    assert_eq!(
        frame,
        GatewayFrame::Dispatch { seq: Some(9), event: DispatchEvent::GuildDelete { id: 42 } }
    );
    let other = decode_frame("{\"op\":0,\"t\":\"TYPING_START\",\"s\":10,\"d\":{}}");
    assert_eq!(
        other,
        GatewayFrame::Dispatch { seq: Some(10), event: DispatchEvent::Unhandled }
    );
    // a recognized type with a malformed payload is skipped, not fatal
    let bad = decode_frame("{\"op\":0,\"t\":\"GUILD_DELETE\",\"s\":11,\"d\":{\"id\":42}}");
    assert_eq!(bad, GatewayFrame::Malformed);
    // only the id field is consulted: the unavailable flag is ignored
    let flagged = decode_frame(
        "{\"op\":0,\"t\":\"GUILD_DELETE\",\"s\":12,\"d\":{\"id\":\"42\",\"unavailable\":true}}",
    );
    assert_eq!(
        flagged,
        GatewayFrame::Dispatch { seq: Some(12), event: DispatchEvent::GuildDelete { id: 42 } }
    );
}

#[test]
fn renders_outbound_frames() {
    assert_eq!(initial_heartbeat_json(), "{\"op\":1,\"d\":null}");
    assert_eq!(heartbeat_json(42), "{\"op\":1,\"d\":42}");
    assert_eq!(heartbeat_json(-1), "{\"op\":1,\"d\":-1}");
    assert_eq!(INTENTS, 9);
    assert_eq!(
        identify_json("tok"),
        "{\"op\":2,\"d\":{\"token\":\"tok\",\"intents\":9,\"properties\":{\"os\":\"linux\",\"browser\":\"dem.maix.me\",\"device\":\"dem.maix.me\"}}}"
    );
    assert_eq!(
        resume_json("tok", "sid", 17),
        "{\"op\":6,\"d\":{\"token\":\"tok\",\"session_id\":\"sid\",\"seq\":17}}"
    );
    // credentials are escaped when embedded in frames
    assert_eq!(
        heartbeat_json(0),
        "{\"op\":1,\"d\":0}"
    );
    assert!(identify_json("a\"b").contains("a\\\"b"));
    assert!(identify_json("a\\b").contains("a\\\\b"));
}

#[test]
fn state_machine_handshake_and_ready() {
    let mut client = GatewayClient::new();
    let mut guilds = GuildCache::new();
    let mut sessions = SessionCache::new(4);
    assert_eq!(client.state, ConnState::Connecting);
    assert_eq!(client.last_sequence, -1);
    client.on_socket_opened();
    assert_eq!(client.state, ConnState::Identifying);
    let actions = client.handle_frame(
        &GatewayFrame::Hello { heartbeat_interval: 41250 },
        &mut guilds,
        &mut sessions,
    );
    assert_eq!(
        actions,
        vec![
            GatewayAction::SendInitialHeartbeat,
            GatewayAction::SendIdentify,
            GatewayAction::StartHeartbeat { interval_ms: 41250 },
        ]
    );
    assert_eq!(client.heartbeat_interval_ms, Some(41250));
    let ready = decode_frame(
        "{\"op\":0,\"t\":\"READY\",\"s\":1,\"d\":{\"session_id\":\"sid\"}}",
    );
    client.handle_frame(&ready, &mut guilds, &mut sessions);
    assert_eq!(client.state, ConnState::Connected { session_id: "sid".to_string() });
    assert_eq!(client.last_sequence, 1);
}

#[test]
fn sequence_numbers_never_regress() {
    let mut client = GatewayClient::new();
    let mut guilds = GuildCache::new();
    let mut sessions = SessionCache::new(4);
    let d5 = decode_frame("{\"op\":0,\"t\":\"X\",\"s\":5,\"d\":{}}");
    let d3 = decode_frame("{\"op\":0,\"t\":\"X\",\"s\":3,\"d\":{}}");
    client.handle_frame(&d5, &mut guilds, &mut sessions);
    assert_eq!(client.last_sequence, 5);
    client.handle_frame(&d3, &mut guilds, &mut sessions);
    assert_eq!(client.last_sequence, 5);
}

#[test]
fn resume_replays_are_idempotent() {
    // a connection drop followed by a resume that replays the same
    // guild-create leaves guild state unchanged
    let mut client = GatewayClient::new();
    let mut guilds = GuildCache::new();
    let mut sessions = SessionCache::new(4);
    client.on_socket_opened();
    let ready = decode_frame(
        "{\"op\":0,\"t\":\"READY\",\"s\":1,\"d\":{\"session_id\":\"sid\"}}",
    );
    client.handle_frame(&ready, &mut guilds, &mut sessions);
    let create = decode_frame("{\"op\":0,\"t\":\"GUILD_CREATE\",\"s\":2,\"d\":{\"id\":\"42\",\"name\":\"g\",\"icon\":\"i\",\"description\":null,\"emojis\":[],\"stickers\":[],\"members\":[]}}");
    client.handle_frame(&create, &mut guilds, &mut sessions);
    let before = guilds.get(42).unwrap();
    let seq_before = client.last_sequence;
    let directive = client.on_transport_error();
    assert_eq!(
        directive,
        ReconnectDirective::Resume { session_id: "sid".to_string(), last_sequence: 2 }
    );
    assert_eq!(client.state, ConnState::Resuming { session_id: "sid".to_string() });
    // the service replays the dispatch after the acknowledged cursor
    client.handle_frame(&create, &mut guilds, &mut sessions);
    assert_eq!(client.last_sequence, seq_before);
    assert_eq!(guilds.get(42).unwrap(), before);
}

#[test]
fn transport_error_without_session_reconnects_fresh() {
    let mut client = GatewayClient::new();
    client.on_socket_opened();
    let directive = client.on_transport_error();
    assert_eq!(directive, ReconnectDirective::FreshConnect);
    assert_eq!(client.state, ConnState::Connecting);
}

#[test]
fn heartbeat_request_wakes_the_timer() {
    let mut client = GatewayClient::new();
    let mut guilds = GuildCache::new();
    let mut sessions = SessionCache::new(4);
    let actions = client.handle_frame(
        &GatewayFrame::HeartbeatRequest,
        &mut guilds,
        &mut sessions,
    );
    assert_eq!(actions, vec![GatewayAction::SignalHeartbeat]);
    let none = client.handle_frame(&GatewayFrame::HeartbeatAck, &mut guilds, &mut sessions);
    assert!(none.is_empty());
}
