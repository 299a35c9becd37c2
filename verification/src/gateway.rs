//! The gateway session: typed inbound frames decoded from JSON text, exact
//! encoders for the outbound control frames (heartbeat, identify, resume),
//! and the connection state machine that keeps exactly one logical session
//! alive, resumes it after transport failures, and feeds guild events into
//! the caches. Sequence numbers move strictly forward: the resume cursor is
//! advanced only after an event is processed, and never backwards.

use vstd::prelude::*;

use crate::guild_cache::apply_guild_event;
use crate::guild_cache::GuildCache;
use crate::guild_cache::GuildEvent;
use crate::guild_cache::GuildEventView;
use crate::json::json_array;
use crate::json::json_as_bool;
use crate::json::json_as_i64;
use crate::json::json_as_string;
use crate::json::json_as_u64;
use crate::json::json_bool_of;
use crate::json::json_doc_of;
use crate::json::json_elems_of;
use crate::json::json_field;
use crate::json::json_get;
use crate::json::json_i64_of;
use crate::json::json_node_of;
use crate::json::json_nodes_of;
use crate::json::json_parse;
use crate::json::json_text_of;
use crate::json::json_u64_of;
use crate::json::JsonV;
use crate::numbers::append_dec_u64;
use crate::numbers::append_dec_i64;
use crate::numbers::append_hex_digit;
use crate::numbers::hex_digit_char;
use crate::numbers::int_dec_seq;
use crate::numbers::parse_u64_dec;
use crate::numbers::str_eq;
use crate::numbers::u64_dec_seq;
use crate::session_cache::has_key;
use crate::session_cache::reconciled_user;
use crate::session_cache::value_of;
use crate::session_cache::SessionCache;
use crate::types::EmojiItem;
use crate::types::GuildMember;
use crate::types::PartialGuild;
use crate::types::StickerItem;
use crate::types::User;

verus! {

/// The event categories the client asks the gateway for: guilds and guild
/// members.
pub const INTENTS: u64 = (1 << 0) | (1 << 3);

/// A dispatch payload the client acts on. Unrecognized event names decode
/// to the explicit unhandled variant rather than erroring.
#[derive(Debug, PartialEq, Eq)]
pub enum DispatchEvent {
    Ready { session_id: Option<String> },
    GuildCreate(PartialGuild),
    GuildDelete { id: u64 },
    Unhandled,
}

/// One inbound gateway frame, decoded. A message that does not fit the
/// protocol's shape decodes to the malformed variant: the event is skipped
/// and the connection stays open.
#[derive(Debug, PartialEq, Eq)]
pub enum GatewayFrame {
    Dispatch { seq: Option<i64>, event: DispatchEvent },
    HeartbeatRequest,
    Hello { heartbeat_interval: u64 },
    HeartbeatAck,
    Other { op: u64 },
    Malformed,
}

/// What the client asks its driver to do after a frame: send a control
/// frame, start the heartbeat timer with the given interval, or wake the
/// heartbeat timer early.
#[derive(Debug, Clone, Copy, PartialEq, Eq, Structural)]
pub enum GatewayAction {
    SendInitialHeartbeat,
    SendIdentify,
    StartHeartbeat { interval_ms: u64 },
    SignalHeartbeat,
}

/// The connection lifecycle of the one logical session.
#[derive(Debug, PartialEq, Eq)]
pub enum ConnState {
    Connecting,
    Identifying,
    Connected { session_id: String },
    Resuming { session_id: String },
    Closed,
}

/// What the driver must do to re-establish transport: resume the known
/// session from the cursor, or start a fresh connect sequence.
#[derive(Debug, PartialEq, Eq)]
pub enum ReconnectDirective {
    Resume { session_id: String, last_sequence: i64 },
    FreshConnect,
}

/// The sequence cursor after a frame: a dispatch carrying a larger sequence
/// number advances it, nothing ever moves it back.
pub open spec fn spec_next_seq(cur: i64, frame: GatewayFrame) -> i64 {
    match frame {
        GatewayFrame::Dispatch { seq: Some(s), .. } => if s > cur {
            s
        } else {
            cur
        },
        _ => cur,
    }
}

/// The connection state after a frame: a ready dispatch carrying a session
/// id makes the session connected; nothing else moves the state.
pub open spec fn spec_state_after(st: ConnState, frame: GatewayFrame) -> ConnState {
    match frame {
        GatewayFrame::Dispatch { event: DispatchEvent::Ready { session_id: Some(sid) }, .. } => {
            ConnState::Connected { session_id: sid }
        },
        _ => st,
    }
}

/// The heartbeat interval after a frame: set by a hello frame, otherwise
/// kept.
pub open spec fn spec_interval_after(cur: Option<u64>, frame: GatewayFrame) -> Option<u64> {
    match frame {
        GatewayFrame::Hello { heartbeat_interval } => Some(heartbeat_interval),
        _ => cur,
    }
}

/// The guild event a frame carries, if any.
pub open spec fn spec_guild_event_of(frame: GatewayFrame) -> Option<GuildEventView> {
    match frame {
        GatewayFrame::Dispatch { event: DispatchEvent::GuildCreate(g), .. } => Some(
            GuildEventView::Create(g@),
        ),
        GatewayFrame::Dispatch { event: DispatchEvent::GuildDelete { id }, .. } => Some(
            GuildEventView::Delete(id),
        ),
        _ => None,
    }
}

/// The actions a frame provokes: a hello is answered with one immediate
/// heartbeat, the identify frame, and the start of the heartbeat timer; a
/// heartbeat request wakes the timer; nothing else sends anything.
pub open spec fn spec_actions_of(frame: GatewayFrame) -> Seq<GatewayAction> {
    match frame {
        GatewayFrame::Hello { heartbeat_interval } => seq![
            GatewayAction::SendInitialHeartbeat,
            GatewayAction::SendIdentify,
            GatewayAction::StartHeartbeat { interval_ms: heartbeat_interval },
        ],
        GatewayFrame::HeartbeatRequest => seq![GatewayAction::SignalHeartbeat],
        _ => Seq::empty(),
    }
}

/// The client's own state: the connection lifecycle, the resume cursor, and
/// the heartbeat interval announced by the service.
pub struct GatewayClient {
    pub state: ConnState,
    pub last_sequence: i64,
    pub heartbeat_interval_ms: Option<u64>,
}

impl GatewayClient {
    /// A fresh client, not yet connected; the cursor starts below every real
    /// sequence number.
    pub fn new() -> (r: GatewayClient)
        ensures
            r.state == ConnState::Connecting,
            r.last_sequence == -1,
            r.heartbeat_interval_ms is None,
    {
        GatewayClient { state: ConnState::Connecting, last_sequence: -1, heartbeat_interval_ms: None }
    }

    /// The socket opened: the client moves to identifying and waits for the
    /// hello frame. The cursor is kept, so a later resume replays from it.
    pub fn on_socket_opened(&mut self)
        ensures
            final(self).state == ConnState::Identifying,
            final(self).last_sequence == old(self).last_sequence,
            final(self).heartbeat_interval_ms == old(self).heartbeat_interval_ms,
    {
        self.state = ConnState::Identifying;
    }

    /// The transport failed: with a known session the client resumes it
    /// from the cursor; without one it starts the connect sequence afresh.
    pub fn on_transport_error(&mut self) -> (r: ReconnectDirective)
        ensures
            final(self).last_sequence == old(self).last_sequence,
            final(self).heartbeat_interval_ms == old(self).heartbeat_interval_ms,
            match old(self).state {
                ConnState::Connected { session_id } => final(self).state == (
                ConnState::Resuming { session_id }) && r == (ReconnectDirective::Resume {
                    session_id,
                    last_sequence: old(self).last_sequence,
                }),
                ConnState::Resuming { session_id } => final(self).state == (ConnState::Resuming {
                    session_id,
                }) && r == (ReconnectDirective::Resume {
                    session_id,
                    last_sequence: old(self).last_sequence,
                }),
                _ => final(self).state == ConnState::Connecting && r
                    == ReconnectDirective::FreshConnect,
            },
    {
        let known = match &self.state {
            ConnState::Connected { session_id } => Some(session_id.clone()),
            ConnState::Resuming { session_id } => Some(session_id.clone()),
            _ => None,
        };
        match known {
            Some(sid) => {
                let sid_out = sid.clone();
                self.state = ConnState::Resuming { session_id: sid };
                ReconnectDirective::Resume {
                    session_id: sid_out,
                    last_sequence: self.last_sequence,
                }
            },
            None => {
                self.state = ConnState::Connecting;
                ReconnectDirective::FreshConnect
            },
        }
    }

    /// Processes one decoded frame, strictly in receive order: updates the
    /// connection state and the caches, advances the cursor monotonically
    /// (never backwards, so a resume replays nothing older than what was
    /// processed), and returns the control actions to perform.
    pub fn handle_frame(
        &mut self,
        frame: &GatewayFrame,
        guilds: &mut GuildCache,
        sessions: &mut SessionCache,
    ) -> (r: Vec<GatewayAction>)
        requires
            old(sessions).wf(),
        ensures
            final(sessions).wf(),
            final(self).last_sequence == spec_next_seq(old(self).last_sequence, *frame),
            final(self).last_sequence >= old(self).last_sequence,
            final(self).state == spec_state_after(old(self).state, *frame),
            final(self).heartbeat_interval_ms == spec_interval_after(
                old(self).heartbeat_interval_ms,
                *frame,
            ),
            final(guilds)@ == match spec_guild_event_of(*frame) {
                Some(e) => apply_guild_event(old(guilds)@, e),
                None => old(guilds)@,
            },
            r@ == spec_actions_of(*frame),
            final(sessions)@.cap == old(sessions)@.cap,
            forall|t: Seq<char>|
                #[trigger] has_key(final(sessions)@.sessions, t) == has_key(
                    old(sessions)@.sessions,
                    t,
                ),
            forall|t: Seq<char>|
                #[trigger] has_key(old(sessions)@.sessions, t) ==> value_of(
                    final(sessions)@.sessions,
                    t,
                ) == match *frame {
                    GatewayFrame::Dispatch { event: DispatchEvent::GuildCreate(g), .. } => {
                        reconciled_user(value_of(old(sessions)@.sessions, t), g@.members, g@.id)
                    },
                    _ => value_of(old(sessions)@.sessions, t),
                },
    {
        let mut actions: Vec<GatewayAction> = Vec::new();
        match frame {
            GatewayFrame::Dispatch { seq, event } => {
                match event {
                    DispatchEvent::Ready { session_id } => {
                        match session_id {
                            Some(sid) => {
                                self.state = ConnState::Connected { session_id: sid.clone() };
                            },
                            None => {},
                        }
                    },
                    DispatchEvent::GuildCreate(g) => {
                        guilds.apply_event(&GuildEvent::Create(g.clone()));
                        sessions.reconcile_guild_create(g);
                    },
                    DispatchEvent::GuildDelete { id } => {
                        guilds.apply_event(&GuildEvent::Delete(*id));
                    },
                    DispatchEvent::Unhandled => {},
                }
                match seq {
                    Some(s) => {
                        if *s > self.last_sequence {
                            self.last_sequence = *s;
                        }
                    },
                    None => {},
                }
            },
            GatewayFrame::Hello { heartbeat_interval } => {
                self.heartbeat_interval_ms = Some(*heartbeat_interval);
                actions.push(GatewayAction::SendInitialHeartbeat);
                actions.push(GatewayAction::SendIdentify);
                actions.push(GatewayAction::StartHeartbeat { interval_ms: *heartbeat_interval });
            },
            GatewayFrame::HeartbeatRequest => {
                actions.push(GatewayAction::SignalHeartbeat);
            },
            GatewayFrame::HeartbeatAck => {},
            GatewayFrame::Other { .. } => {},
            GatewayFrame::Malformed => {},
        }
        proof {
            assert(actions@ =~= spec_actions_of(*frame));
        }
        actions
    }
}

/// The cursor never regresses, whatever frame arrives: the heart of resume
/// correctness. Together with the guild-event idempotence laws, a resume
/// that replays already-applied events leaves guild state unchanged.
pub proof fn lemma_sequence_monotonic(cur: i64, frame: GatewayFrame)
    ensures
        spec_next_seq(cur, frame) >= cur,
{
}

/// The decimal value a text denotes, for a nonempty digit string whose
/// value fits a `u64`.
pub open spec fn spec_parse_u64_text(t: Seq<char>) -> Option<u64> {
    if t.len() > 0 && crate::numbers::all_dec_digits(t) && crate::numbers::seq_dec_val(t)
        <= u64::MAX {
        Some(crate::numbers::seq_dec_val(t) as u64)
    } else {
        None
    }
}

/// The text a member of the modelled object holds, if the member exists
/// and is a string.
pub open spec fn field_text(j: JsonV, key: Seq<char>) -> Option<Seq<char>> {
    match json_field(j, key) {
        Some(f) => json_text_of(f),
        None => None,
    }
}

/// The boolean a member of the modelled object holds, if the member exists
/// and is one.
pub open spec fn field_bool(j: JsonV, key: Seq<char>) -> Option<bool> {
    match json_field(j, key) {
        Some(f) => json_bool_of(f),
        None => None,
    }
}

/// The elements a member of the modelled object holds, if the member
/// exists and is an array.
pub open spec fn field_elems(j: JsonV, key: Seq<char>) -> Option<Seq<JsonV>> {
    match json_field(j, key) {
        Some(f) => json_elems_of(f),
        None => None,
    }
}

/// The number a member carries as a decimal string, as the service
/// transmits ids and permission bits.
pub open spec fn spec_parse_u64_field(j: JsonV, key: Seq<char>) -> Option<u64> {
    match field_text(j, key) {
        Some(t) => spec_parse_u64_text(t),
        None => None,
    }
}

/// Whether a modelled emoji object has every required field in the
/// required shape.
pub open spec fn emoji_shape_ok(j: JsonV) -> bool {
    &&& spec_parse_u64_field(j, "id"@) is Some
    &&& field_text(j, "name"@) is Some
    &&& field_bool(j, "animated"@) is Some
    &&& field_bool(j, "available"@) is Some
    &&& field_bool(j, "managed"@) is Some
}

/// Whether a decoded emoji carries exactly the modelled object's fields.
pub open spec fn emoji_matches(e: EmojiItem, j: JsonV) -> bool {
    &&& Some(e.id) == spec_parse_u64_field(j, "id"@)
    &&& Some(e.name@) == field_text(j, "name"@)
    &&& Some(e.animated) == field_bool(j, "animated"@)
    &&& Some(e.available) == field_bool(j, "available"@)
    &&& Some(e.managed) == field_bool(j, "managed"@)
}

/// Whether a modelled sticker object has every required field.
pub open spec fn sticker_shape_ok(j: JsonV) -> bool {
    &&& spec_parse_u64_field(j, "id"@) is Some
    &&& field_text(j, "name"@) is Some
}

/// Whether a decoded sticker carries exactly the modelled object's fields.
pub open spec fn sticker_matches(s: StickerItem, j: JsonV) -> bool {
    &&& Some(s.id) == spec_parse_u64_field(j, "id"@)
    &&& Some(s.name@) == field_text(j, "name"@)
    &&& crate::types::opt_string_view(s.description) == field_text(j, "description"@)
}

/// The user id a modelled member object names.
pub open spec fn member_user_id_spec(j: JsonV) -> Option<u64> {
    match json_field(j, "user"@) {
        Some(u) => spec_parse_u64_field(u, "id"@),
        None => None,
    }
}

/// The permission bits a modelled member object carries: none transmitted
/// means no bits, anything present must be a decimal string.
pub open spec fn member_perm_spec(j: JsonV) -> Option<u64> {
    match json_field(j, "permissions"@) {
        Some(f) => match json_text_of(f) {
            Some(t) => spec_parse_u64_text(t),
            None => None,
        },
        None => Some(0),
    }
}

/// Whether a modelled member object has a user id and usable permission
/// bits.
pub open spec fn member_shape_ok(j: JsonV) -> bool {
    &&& member_user_id_spec(j) is Some
    &&& member_perm_spec(j) is Some
}

/// Whether a decoded member carries exactly the modelled object's fields.
pub open spec fn member_matches(m: GuildMember, j: JsonV) -> bool {
    &&& Some(m.user.id) == member_user_id_spec(j)
    &&& Some(m.permissions) == member_perm_spec(j)
}

/// Whether every modelled element is a well-shaped emoji.
pub open spec fn emojis_shape_ok(elems: Seq<JsonV>) -> bool {
    forall|i: int| 0 <= i < elems.len() ==> emoji_shape_ok(#[trigger] elems[i])
}

/// Whether the decoded emojis carry exactly the modelled elements.
pub open spec fn emojis_match(es: Seq<EmojiItem>, elems: Seq<JsonV>) -> bool {
    es.len() == elems.len() && forall|i: int|
        0 <= i < elems.len() ==> emoji_matches(#[trigger] es[i], elems[i])
}

/// Whether every modelled element is a well-shaped sticker.
pub open spec fn stickers_shape_ok(elems: Seq<JsonV>) -> bool {
    forall|i: int| 0 <= i < elems.len() ==> sticker_shape_ok(#[trigger] elems[i])
}

/// Whether the decoded stickers carry exactly the modelled elements.
pub open spec fn stickers_match(ss: Seq<StickerItem>, elems: Seq<JsonV>) -> bool {
    ss.len() == elems.len() && forall|i: int|
        0 <= i < elems.len() ==> sticker_matches(#[trigger] ss[i], elems[i])
}

/// Whether every modelled element is a well-shaped member.
pub open spec fn members_shape_ok(elems: Seq<JsonV>) -> bool {
    forall|i: int| 0 <= i < elems.len() ==> member_shape_ok(#[trigger] elems[i])
}

/// Whether the decoded members carry exactly the modelled elements.
pub open spec fn members_match(ms: Seq<GuildMember>, elems: Seq<JsonV>) -> bool {
    ms.len() == elems.len() && forall|i: int|
        0 <= i < elems.len() ==> member_matches(#[trigger] ms[i], elems[i])
}

/// Whether a modelled guild-create payload has every required field in the
/// required shape: ids and permission bits as decimal strings, the three
/// lists well-shaped element by element.
pub open spec fn guild_shape_ok(j: JsonV) -> bool {
    &&& spec_parse_u64_field(j, "id"@) is Some
    &&& field_text(j, "name"@) is Some
    &&& field_text(j, "icon"@) is Some
    &&& match field_elems(j, "emojis"@) {
        Some(elems) => emojis_shape_ok(elems),
        None => false,
    }
    &&& match field_elems(j, "stickers"@) {
        Some(elems) => stickers_shape_ok(elems),
        None => false,
    }
    &&& match field_elems(j, "members"@) {
        Some(elems) => members_shape_ok(elems),
        None => false,
    }
}

/// Whether a decoded snapshot carries exactly the modelled payload's
/// fields.
pub open spec fn guild_matches(g: PartialGuild, j: JsonV) -> bool {
    &&& Some(g.id) == spec_parse_u64_field(j, "id"@)
    &&& Some(g.name@) == field_text(j, "name"@)
    &&& Some(g.icon@) == field_text(j, "icon"@)
    &&& crate::types::opt_string_view(g.description) == field_text(j, "description"@)
    &&& match field_elems(j, "emojis"@) {
        Some(elems) => emojis_match(g.emojis@, elems),
        None => false,
    }
    &&& match field_elems(j, "stickers"@) {
        Some(elems) => stickers_match(g.stickers@, elems),
        None => false,
    }
    &&& match field_elems(j, "members"@) {
        Some(elems) => members_match(g.members@, elems),
        None => false,
    }
}

/// The opcode a modelled message carries; anything unusable reads as the
/// dispatch opcode, as the original's fallback did.
pub open spec fn spec_op_of(j: JsonV) -> u64 {
    match json_field(j, "op"@) {
        Some(f) => match json_u64_of(f) {
            Some(op) => op,
            None => 0,
        },
        None => 0,
    }
}

/// The sequence number a modelled dispatch carries, if any.
pub open spec fn spec_seq_of(j: JsonV) -> Option<i64> {
    match json_field(j, "s"@) {
        Some(f) => json_i64_of(f),
        None => None,
    }
}

/// The heartbeat interval a modelled hello frame carries, if any.
pub open spec fn spec_hello_interval(j: JsonV) -> Option<u64> {
    match json_field(j, "d"@) {
        Some(d) => match json_field(d, "heartbeat_interval"@) {
            Some(f) => json_u64_of(f),
            None => None,
        },
        None => None,
    }
}

/// The session id a modelled ready dispatch carries, if any.
pub open spec fn spec_ready_session_id(j: JsonV) -> Option<Seq<char>> {
    match json_field(j, "d"@) {
        Some(d) => field_text(d, "session_id"@),
        None => None,
    }
}

/// The guild id a modelled delete dispatch carries, if any; only the id
/// field is consulted — the unavailable flag and everything else in the
/// payload are ignored.
pub open spec fn spec_delete_id(j: JsonV) -> Option<u64> {
    match json_field(j, "d"@) {
        Some(d) => spec_parse_u64_field(d, "id"@),
        None => None,
    }
}

/// What decoding a dispatch message must yield, given the modelled tree:
/// the event named by the type field, its payload in the required shape,
/// and the carried sequence number; unknown names are the explicit
/// unhandled event, an ill-shaped payload of a known name is malformed.
pub open spec fn dispatch_matches(f: GatewayFrame, j: JsonV) -> bool {
    match field_text(j, "t"@) {
        None => f == GatewayFrame::Malformed,
        Some(name) => {
            let s = spec_seq_of(j);
            if name == "READY"@ {
                f matches GatewayFrame::Dispatch {
                    seq,
                    event: DispatchEvent::Ready { session_id },
                } && seq == s && crate::types::opt_string_view(session_id)
                    == spec_ready_session_id(j)
            } else if name == "GUILD_CREATE"@ {
                match json_field(j, "d"@) {
                    None => f == GatewayFrame::Malformed,
                    Some(d) => if guild_shape_ok(d) {
                        f matches GatewayFrame::Dispatch {
                            seq,
                            event: DispatchEvent::GuildCreate(g),
                        } && seq == s && guild_matches(g, d)
                    } else {
                        f == GatewayFrame::Malformed
                    },
                }
            } else if name == "GUILD_DELETE"@ {
                match spec_delete_id(j) {
                    Some(id) => f == (GatewayFrame::Dispatch {
                        seq: s,
                        event: DispatchEvent::GuildDelete { id },
                    }),
                    None => f == GatewayFrame::Malformed,
                }
            } else {
                f == (GatewayFrame::Dispatch { seq: s, event: DispatchEvent::Unhandled })
            }
        },
    }
}

/// What decoding a gateway message must yield, given the modelled tree of
/// its text: classification by opcode, then by event name for dispatches;
/// whatever does not fit the protocol's shape is the malformed frame.
pub open spec fn frame_matches(f: GatewayFrame, doc: Option<JsonV>) -> bool {
    match doc {
        None => f == GatewayFrame::Malformed,
        Some(j) => {
            let op = spec_op_of(j);
            if op == 0 {
                dispatch_matches(f, j)
            } else if op == 1 {
                f == GatewayFrame::HeartbeatRequest
            } else if op == 10 {
                match spec_hello_interval(j) {
                    Some(n) => f == (GatewayFrame::Hello { heartbeat_interval: n }),
                    None => f == GatewayFrame::Malformed,
                }
            } else if op == 11 {
                f == GatewayFrame::HeartbeatAck
            } else {
                f == (GatewayFrame::Other { op })
            }
        },
    }
}

/// Decodes one gateway message: the text is parsed as JSON and classified
/// by its opcode and event name, exactly as `frame_matches` dictates over
/// the modelled tree of the text.
pub fn decode_frame(text: &str) -> (r: GatewayFrame)
    ensures
        frame_matches(r, json_doc_of(text@)),
{
    let v = match json_parse(text) {
        Some(v) => v,
        None => {
            return GatewayFrame::Malformed;
        },
    };
    let op = match json_get(&v, "op") {
        Some(opv) => match json_as_u64(opv) {
            Some(op) => op,
            None => 0,
        },
        None => 0,
    };
    if op == 0 {
        let name = match json_get(&v, "t") {
            Some(tv) => match json_as_string(tv) {
                Some(name) => name,
                None => {
                    return GatewayFrame::Malformed;
                },
            },
            None => {
                return GatewayFrame::Malformed;
            },
        };
        let seq = match json_get(&v, "s") {
            Some(sv) => json_as_i64(sv),
            None => None,
        };
        let event = if str_eq(name.as_str(), "READY") {
            let session_id = match json_get(&v, "d") {
                Some(d) => match json_get(d, "session_id") {
                    Some(sv) => json_as_string(sv),
                    None => None,
                },
                None => None,
            };
            DispatchEvent::Ready { session_id }
        } else if str_eq(name.as_str(), "GUILD_CREATE") {
            match json_get(&v, "d") {
                Some(d) => match decode_guild(d) {
                    Some(g) => DispatchEvent::GuildCreate(g),
                    None => {
                        return GatewayFrame::Malformed;
                    },
                },
                None => {
                    return GatewayFrame::Malformed;
                },
            }
        } else if str_eq(name.as_str(), "GUILD_DELETE") {
            match json_get(&v, "d") {
                Some(d) => match decode_u64_field(d, "id") {
                    Some(id) => DispatchEvent::GuildDelete { id },
                    None => {
                        return GatewayFrame::Malformed;
                    },
                },
                None => {
                    return GatewayFrame::Malformed;
                },
            }
        } else {
            DispatchEvent::Unhandled
        };
        GatewayFrame::Dispatch { seq, event }
    } else if op == 1 {
        GatewayFrame::HeartbeatRequest
    } else if op == 10 {
        match json_get(&v, "d") {
            Some(d) => match json_get(d, "heartbeat_interval") {
                Some(iv) => match json_as_u64(iv) {
                    Some(interval) => GatewayFrame::Hello { heartbeat_interval: interval },
                    None => GatewayFrame::Malformed,
                },
                None => GatewayFrame::Malformed,
            },
            None => GatewayFrame::Malformed,
        }
    } else if op == 11 {
        GatewayFrame::HeartbeatAck
    } else {
        GatewayFrame::Other { op }
    }
}

/// Reads a numeric field that the service transmits as a decimal string.
pub(crate) fn decode_u64_field(v: &serde_json::Value, key: &str) -> (r: Option<u64>)
    ensures
        r == spec_parse_u64_field(json_node_of(*v), key@),
{
    match json_get(v, key) {
        Some(field) => match json_as_string(field) {
            Some(text) => {
                let parsed = parse_u64_dec(text.as_str());
                proof {
                    if text@.len() > 0 && crate::numbers::all_dec_digits(text@) {
                        crate::numbers::lemma_seq_dec_val_nonneg(text@);
                    }
                }
                parsed
            },
            None => None,
        },
        None => None,
    }
}

/// Decodes a guild snapshot from a guild-create payload, exactly as
/// `guild_matches` dictates over the modelled payload: ids and permission
/// bits arrive as decimal strings, a missing permission field means no
/// permission bits, and any other missing or ill-typed field makes the
/// whole snapshot malformed.
pub fn decode_guild(v: &serde_json::Value) -> (r: Option<PartialGuild>)
    ensures
        r matches Some(g) ==> guild_shape_ok(json_node_of(*v)) && guild_matches(
            g,
            json_node_of(*v),
        ),
        r is None ==> !guild_shape_ok(json_node_of(*v)),
{
    let id = match decode_u64_field(v, "id") {
        Some(id) => id,
        None => {
            return None;
        },
    };
    let name = match json_get(v, "name") {
        Some(nv) => match json_as_string(nv) {
            Some(name) => name,
            None => {
                return None;
            },
        },
        None => {
            return None;
        },
    };
    let icon = match json_get(v, "icon") {
        Some(iv) => match json_as_string(iv) {
            Some(icon) => icon,
            None => {
                return None;
            },
        },
        None => {
            return None;
        },
    };
    let description = match json_get(v, "description") {
        Some(dv) => json_as_string(dv),
        None => None,
    };
    let emojis = match json_get(v, "emojis") {
        Some(ev) => match decode_emojis(ev) {
            Some(emojis) => emojis,
            None => {
                return None;
            },
        },
        None => {
            return None;
        },
    };
    let stickers = match json_get(v, "stickers") {
        Some(sv) => match decode_stickers(sv) {
            Some(stickers) => stickers,
            None => {
                return None;
            },
        },
        None => {
            return None;
        },
    };
    let members = match json_get(v, "members") {
        Some(mv) => match decode_members(mv) {
            Some(members) => members,
            None => {
                return None;
            },
        },
        None => {
            return None;
        },
    };
    Some(PartialGuild { id, name, icon, emojis, stickers, description, members })
}

/// Decodes the emoji list of a guild snapshot, element by element.
fn decode_emojis(v: &serde_json::Value) -> (r: Option<Vec<EmojiItem>>)
    ensures
        ({
            let elems_opt = json_elems_of(json_node_of(*v));
            match r {
                Some(es) => elems_opt matches Some(elems) && emojis_shape_ok(elems)
                    && emojis_match(es@, elems),
                None => match elems_opt {
                    Some(elems) => !emojis_shape_ok(elems),
                    None => true,
                },
            }
        }),
{
    let items = match json_array(v) {
        Some(items) => items,
        None => {
            return None;
        },
    };
    let ghost elems = json_nodes_of(items@);
    let mut out: Vec<EmojiItem> = Vec::new();
    let n = items.len();
    let mut i: usize = 0;
    while i < n
        invariant
            0 <= i <= n,
            n == items@.len(),
            elems == json_nodes_of(items@),
            json_elems_of(json_node_of(*v)) == Some(elems),
            out@.len() == i,
            forall|q: int|
                0 <= q < i ==> emoji_shape_ok(#[trigger] elems[q]) && emoji_matches(
                    out@[q],
                    elems[q],
                ),
        decreases n - i,
    {
        let item = &items[i];
        proof {
            assert(json_node_of(items@[i as int]) == elems[i as int]);
        }
        let id = match decode_u64_field(item, "id") {
            Some(id) => id,
            None => {
                proof {
                    assert(!emoji_shape_ok(elems[i as int]));
                }
                return None;
            },
        };
        let name = match json_get(item, "name") {
            Some(nv) => match json_as_string(nv) {
                Some(name) => name,
                None => {
                    proof {
                        assert(!emoji_shape_ok(elems[i as int]));
                    }
                    return None;
                },
            },
            None => {
                proof {
                    assert(!emoji_shape_ok(elems[i as int]));
                }
                return None;
            },
        };
        let animated = match decode_bool_field(item, "animated") {
            Some(b) => b,
            None => {
                proof {
                    assert(!emoji_shape_ok(elems[i as int]));
                }
                return None;
            },
        };
        let available = match decode_bool_field(item, "available") {
            Some(b) => b,
            None => {
                proof {
                    assert(!emoji_shape_ok(elems[i as int]));
                }
                return None;
            },
        };
        let managed = match decode_bool_field(item, "managed") {
            Some(b) => b,
            None => {
                proof {
                    assert(!emoji_shape_ok(elems[i as int]));
                }
                return None;
            },
        };
        out.push(EmojiItem { id, animated, available, managed, name });
        i = i + 1;
    }
    Some(out)
}

/// Reads a boolean field of a modelled object.
fn decode_bool_field(v: &serde_json::Value, key: &str) -> (r: Option<bool>)
    ensures
        r == field_bool(json_node_of(*v), key@),
{
    match json_get(v, key) {
        Some(field) => json_as_bool(field),
        None => None,
    }
}

/// Decodes the sticker list of a guild snapshot, element by element.
fn decode_stickers(v: &serde_json::Value) -> (r: Option<Vec<StickerItem>>)
    ensures
        ({
            let elems_opt = json_elems_of(json_node_of(*v));
            match r {
                Some(ss) => elems_opt matches Some(elems) && stickers_shape_ok(elems)
                    && stickers_match(ss@, elems),
                None => match elems_opt {
                    Some(elems) => !stickers_shape_ok(elems),
                    None => true,
                },
            }
        }),
{
    let items = match json_array(v) {
        Some(items) => items,
        None => {
            return None;
        },
    };
    let ghost elems = json_nodes_of(items@);
    let mut out: Vec<StickerItem> = Vec::new();
    let n = items.len();
    let mut i: usize = 0;
    while i < n
        invariant
            0 <= i <= n,
            n == items@.len(),
            elems == json_nodes_of(items@),
            json_elems_of(json_node_of(*v)) == Some(elems),
            out@.len() == i,
            forall|q: int|
                0 <= q < i ==> sticker_shape_ok(#[trigger] elems[q]) && sticker_matches(
                    out@[q],
                    elems[q],
                ),
        decreases n - i,
    {
        let item = &items[i];
        proof {
            assert(json_node_of(items@[i as int]) == elems[i as int]);
        }
        let id = match decode_u64_field(item, "id") {
            Some(id) => id,
            None => {
                proof {
                    assert(!sticker_shape_ok(elems[i as int]));
                }
                return None;
            },
        };
        let name = match json_get(item, "name") {
            Some(nv) => match json_as_string(nv) {
                Some(name) => name,
                None => {
                    proof {
                        assert(!sticker_shape_ok(elems[i as int]));
                    }
                    return None;
                },
            },
            None => {
                proof {
                    assert(!sticker_shape_ok(elems[i as int]));
                }
                return None;
            },
        };
        let description = match json_get(item, "description") {
            Some(dv) => json_as_string(dv),
            None => None,
        };
        out.push(StickerItem { id, name, description });
        i = i + 1;
    }
    Some(out)
}

/// Decodes the member list of a guild snapshot, element by element: a
/// missing permission field means no permission bits.
fn decode_members(v: &serde_json::Value) -> (r: Option<Vec<GuildMember>>)
    ensures
        ({
            let elems_opt = json_elems_of(json_node_of(*v));
            match r {
                Some(ms) => elems_opt matches Some(elems) && members_shape_ok(elems)
                    && members_match(ms@, elems),
                None => match elems_opt {
                    Some(elems) => !members_shape_ok(elems),
                    None => true,
                },
            }
        }),
{
    let items = match json_array(v) {
        Some(items) => items,
        None => {
            return None;
        },
    };
    let ghost elems = json_nodes_of(items@);
    let mut out: Vec<GuildMember> = Vec::new();
    let n = items.len();
    let mut i: usize = 0;
    while i < n
        invariant
            0 <= i <= n,
            n == items@.len(),
            elems == json_nodes_of(items@),
            json_elems_of(json_node_of(*v)) == Some(elems),
            out@.len() == i,
            forall|q: int|
                0 <= q < i ==> member_shape_ok(#[trigger] elems[q]) && member_matches(
                    out@[q],
                    elems[q],
                ),
        decreases n - i,
    {
        let item = &items[i];
        proof {
            assert(json_node_of(items@[i as int]) == elems[i as int]);
        }
        let user_id = match json_get(item, "user") {
            Some(uv) => match decode_u64_field(uv, "id") {
                Some(id) => id,
                None => {
                    proof {
                        assert(!member_shape_ok(elems[i as int]));
                    }
                    return None;
                },
            },
            None => {
                proof {
                    assert(!member_shape_ok(elems[i as int]));
                }
                return None;
            },
        };
        let permissions = match json_get(item, "permissions") {
            Some(pv) => match json_as_string(pv) {
                Some(text) => {
                    let parsed = parse_u64_dec(text.as_str());
                    proof {
                        if text@.len() > 0 && crate::numbers::all_dec_digits(text@) {
                            crate::numbers::lemma_seq_dec_val_nonneg(text@);
                        }
                    }
                    match parsed {
                        Some(p) => p,
                        None => {
                            proof {
                                assert(!member_shape_ok(elems[i as int]));
                            }
                            return None;
                        },
                    }
                },
                None => {
                    proof {
                        assert(!member_shape_ok(elems[i as int]));
                    }
                    return None;
                },
            },
            None => 0,
        };
        out.push(GuildMember { user: User { id: user_id }, permissions });
        i = i + 1;
    }
    Some(out)
}


/// What escaping one character for a JSON string yields: quote and
/// backslash get a backslash, control characters become a hexadecimal
/// escape, everything else stands as it is.
pub open spec fn escaped_char(c: char) -> Seq<char> {
    if c == '"' {
        seq!['\\', '"']
    } else if c == '\\' {
        seq!['\\', '\\']
    } else if (c as int) < 32 {
        seq!['\\', 'u', '0', '0', hex_digit_char(c as int / 16), hex_digit_char(c as int % 16)]
    } else {
        seq![c]
    }
}

/// A text escaped for embedding in a JSON string literal.
pub open spec fn json_escaped(s: Seq<char>) -> Seq<char>
    decreases s.len(),
{
    if s.len() == 0 {
        Seq::empty()
    } else {
        json_escaped(s.drop_last()) + escaped_char(s.last())
    }
}

/// Appends one character of `s`, escaped for a JSON string literal.
fn append_escaped_char(out: &mut String, s: &str, i: usize)
    requires
        i < s@.len(),
        i < usize::MAX,
    ensures
        final(out)@ == old(out)@ + escaped_char(s@[i as int]),
{
    let c = s.get_char(i);
    let cu: u32 = c as u32;
    if cu == 34 {
        proof {
            reveal_strlit("\\\"");
        }
        out.append("\\\"");
    } else if cu == 92 {
        proof {
            reveal_strlit("\\\\");
        }
        out.append("\\\\");
    } else if cu < 32 {
        proof {
            reveal_strlit("\\u00");
        }
        out.append("\\u00");
        append_hex_digit(out, cu / 16);
        append_hex_digit(out, cu % 16);
    } else {
        let piece = s.substring_char(i, i + 1);
        proof {
            assert(piece@ =~= seq![s@[i as int]]);
        }
        out.append(piece);
    }
    proof {
        assert(out@ =~= old(out)@ + escaped_char(s@[i as int]));
    }
}

/// Appends the whole text, escaped for a JSON string literal.
pub fn append_json_escaped(out: &mut String, s: &str)
    ensures
        final(out)@ == old(out)@ + json_escaped(s@),
{
    let len = s.unicode_len();
    let mut i: usize = 0;
    while i < len
        invariant
            0 <= i <= len,
            len == s@.len(),
            out@ == old(out)@ + json_escaped(s@.subrange(0, i as int)),
        decreases len - i,
    {
        append_escaped_char(out, s, i);
        proof {
            assert(s@.subrange(0, i + 1).drop_last() =~= s@.subrange(0, i as int));
            assert(s@.subrange(0, i + 1).last() == s@[i as int]);
        }
        i = i + 1;
    }
    proof {
        assert(s@.subrange(0, len as int) =~= s@);
    }
}

/// The text of the very first heartbeat, sent before any event arrived.
pub open spec fn initial_heartbeat_json_spec() -> Seq<char> {
    "{\"op\":1,\"d\":null}"@
}

/// The text of a heartbeat frame carrying the cursor.
pub open spec fn heartbeat_json_spec(seq: int) -> Seq<char> {
    "{\"op\":1,\"d\":"@ + int_dec_seq(seq) + "}"@
}

/// The text of the identify frame: credentials, the intents bitmask, and
/// the fixed client-identity block.
pub open spec fn identify_json_spec(token: Seq<char>) -> Seq<char> {
    "{\"op\":2,\"d\":{\"token\":\""@ + json_escaped(token)
        + "\",\"intents\":"@ + u64_dec_seq(INTENTS as nat)
        + ",\"properties\":{\"os\":\"linux\",\"browser\":\"dem.maix.me\",\"device\":\"dem.maix.me\"}}}"@
}

/// The text of the resume frame: credentials, the session, and the cursor.
pub open spec fn resume_json_spec(token: Seq<char>, session_id: Seq<char>, seq: int) -> Seq<char> {
    "{\"op\":6,\"d\":{\"token\":\""@ + json_escaped(token) + "\",\"session_id\":\""@
        + json_escaped(session_id) + "\",\"seq\":"@ + int_dec_seq(seq) + "}}"@
}

/// Renders the first heartbeat frame.
pub fn initial_heartbeat_json() -> (r: String)
    ensures
        r@ == initial_heartbeat_json_spec(),
{
    String::from_str("{\"op\":1,\"d\":null}")
}

/// Renders a heartbeat frame carrying the cursor.
pub fn heartbeat_json(seq: i64) -> (r: String)
    ensures
        r@ == heartbeat_json_spec(seq as int),
{
    let mut out = String::from_str("{\"op\":1,\"d\":");
    append_dec_i64(&mut out, seq);
    out.append("}");
    proof {
        assert(out@ =~= heartbeat_json_spec(seq as int));
    }
    out
}

/// Renders the identify frame for these credentials.
pub fn identify_json(token: &str) -> (r: String)
    ensures
        r@ == identify_json_spec(token@),
{
    let mut out = String::from_str("{\"op\":2,\"d\":{\"token\":\"");
    append_json_escaped(&mut out, token);
    out.append("\",\"intents\":");
    append_dec_u64(&mut out, INTENTS);
    out.append(
        ",\"properties\":{\"os\":\"linux\",\"browser\":\"dem.maix.me\",\"device\":\"dem.maix.me\"}}}",
    );
    proof {
        assert(out@ =~= identify_json_spec(token@));
    }
    out
}

/// Renders the resume frame for this session and cursor.
pub fn resume_json(token: &str, session_id: &str, seq: i64) -> (r: String)
    ensures
        r@ == resume_json_spec(token@, session_id@, seq as int),
{
    let mut out = String::from_str("{\"op\":6,\"d\":{\"token\":\"");
    append_json_escaped(&mut out, token);
    out.append("\",\"session_id\":\"");
    append_json_escaped(&mut out, session_id);
    out.append("\",\"seq\":");
    append_dec_i64(&mut out, seq);
    out.append("}}");
    proof {
        assert(out@ =~= resume_json_spec(token@, session_id@, seq as int));
    }
    out
}

} // verus!
