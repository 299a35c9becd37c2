//! Records for logged-in users as the backend keeps them: the profile
//! fetched from the remote REST API and the session record cached per
//! bearer token, with its expiry instant and per-guild permission bits.

use std::collections::HashMap;

use vstd::prelude::*;

use crate::error::Error;
use crate::error::Rsp;
use crate::guild_cache::GuildCache;
use crate::gateway::field_bool;
use crate::gateway::field_text;
use crate::gateway::spec_parse_u64_field;
use crate::json::json_array;
use crate::json::json_as_bool;
use crate::json::json_as_string;
use crate::json::json_doc_of;
use crate::json::json_elems_of;
use crate::json::json_get;
use crate::json::json_node_of;
use crate::json::json_nodes_of;
use crate::json::json_parse;
use crate::json::JsonV;
use crate::types::opt_string_view;
use crate::numbers::parse_u64_dec;
use crate::session_cache::key_index;
use crate::session_cache::promote;
use crate::session_cache::SessionCache;
use crate::types::from_partial_guild_spec;
use crate::types::EmojiItem;
use crate::types::PartialGuild;
use crate::types::PartialGuildWithPermission;
use crate::types::StickerItem;

verus! {

broadcast use vstd::std_specs::hash::group_hash_axioms, vstd::set::group_set_axioms;

/// The profile of a user as returned by the remote REST API.
#[derive(Debug, PartialEq, Eq)]
pub struct DiscordUser {
    pub id: u64,
    pub username: String,
    pub discriminator: String,
    pub avatar: Option<String>,
}

impl Clone for DiscordUser {
    /// A clone keeps every field.
    fn clone(&self) -> (r: Self)
        ensures
            r == *self,
    {
        DiscordUser {
            id: self.id,
            username: self.username.clone(),
            discriminator: self.discriminator.clone(),
            avatar: crate::types::clone_opt_string(&self.avatar),
        }
    }
}

/// The cached record of a logged-in user: identity, expiry instant
/// (milliseconds since the epoch), and the permission bits of each guild
/// the user is known to belong to.
#[derive(Debug)]
pub struct LoggedUser {
    pub expires_at: u64,
    pub user_id: u64,
    pub user_icon: Option<String>,
    pub username: String,
    pub discriminator: String,
    pub guilds: HashMap<u64, u64>,
}

/// The mathematical content of a logged-in-user record.
#[verifier::ext_equal]
pub struct LoggedUserView {
    pub expires_at: u64,
    pub user_id: u64,
    pub user_icon: Option<String>,
    pub username: String,
    pub discriminator: String,
    pub guilds: Map<u64, u64>,
}

impl View for LoggedUser {
    type V = LoggedUserView;

    open spec fn view(&self) -> LoggedUserView {
        LoggedUserView {
            expires_at: self.expires_at,
            user_id: self.user_id,
            user_icon: self.user_icon,
            username: self.username,
            discriminator: self.discriminator,
            guilds: self.guilds@,
        }
    }
}

impl Clone for LoggedUser {
    /// A clone keeps the record's whole content.
    fn clone(&self) -> (r: Self)
        ensures
            r@ == self@,
    {
        let r = LoggedUser {
            expires_at: self.expires_at,
            user_id: self.user_id,
            user_icon: crate::types::clone_opt_string(&self.user_icon),
            username: self.username.clone(),
            discriminator: self.discriminator.clone(),
            guilds: self.guilds.clone(),
        };
        proof {
            assert(r@ =~= self@);
        }
        r
    }
}

/// The backend's core state: the credentials and paths handed over once at
/// startup, and the two caches the gateway keeps current.
pub struct Logic {
    pub discord_token: String,
    pub google_token: String,
    pub tmp_dir: String,
    pub guilds: GuildCache,
    pub sessions: SessionCache,
}

impl Logic {
    /// The bot credential this instance was configured with.
    pub open spec fn spec_discord_token(&self) -> Seq<char> {
        self.discord_token@
    }

    /// The safety-service credential this instance was configured with.
    pub open spec fn spec_google_token(&self) -> Seq<char> {
        self.google_token@
    }

    /// The scratch directory this instance was configured with.
    pub open spec fn spec_tmp_dir(&self) -> Seq<char> {
        self.tmp_dir@
    }

    /// Builds the core from its configuration, supplied once at startup and
    /// immutable afterwards: both caches start empty, the session cache
    /// bounded as configured.
    pub fn new(
        discord_token: String,
        google_token: String,
        tmp_dir: String,
        logged_user_cache: usize,
    ) -> (r: Logic)
        requires
            logged_user_cache >= 1,
        ensures
            r.spec_discord_token() == discord_token@,
            r.spec_google_token() == google_token@,
            r.spec_tmp_dir() == tmp_dir@,
            r.guilds@ == crate::guild_cache::guild_map_empty(),
            r.sessions.wf(),
            r.sessions@.sessions.len() == 0,
            r.sessions@.reverse.len() == 0,
            r.sessions@.cap == logged_user_cache,
    {
        Logic {
            discord_token,
            google_token,
            tmp_dir,
            guilds: GuildCache::new(),
            sessions: SessionCache::new(logged_user_cache),
        }
    }

    /// The configured bot credential, for the identify and resume frames.
    pub fn discord_token(&self) -> (r: &str)
        ensures
            r@ == self.spec_discord_token(),
    {
        self.discord_token.as_str()
    }

    /// The bearer credential header used for bot calls to the REST API.
    pub fn get_token(&self) -> (r: String)
        ensures
            r@ == "BOT "@ + self.spec_discord_token(),
    {
        let mut out = String::from_str("BOT ");
        out.append(self.discord_token.as_str());
        out
    }

    /// The configured safety-service credential.
    pub fn google_token(&self) -> (r: &str)
        ensures
            r@ == self.spec_google_token(),
    {
        self.google_token.as_str()
    }

    /// The configured scratch directory.
    pub fn tmp_dir(&self) -> (r: &str)
        ensures
            r@ == self.spec_tmp_dir(),
    {
        self.tmp_dir.as_str()
    }

    /// The cached snapshot of a guild, if the gateway has delivered one.
    pub fn get_guild(&self, guildid: u64) -> (r: Option<PartialGuild>)
        ensures
            r matches Some(g) ==> self.guilds@.contains_pair(guildid, g@),
            r is None ==> !self.guilds@.dom().contains(guildid),
    {
        self.guilds.get(guildid)
    }

    /// The emoji list of a guild, for a caller presenting a token: the
    /// caller must be cached (a use, for recency) and a member of the
    /// guild; a guild the gateway has not delivered is an internal error.
    pub fn get_guild_emojis(&mut self, token: &String, id: u64) -> (r: Rsp<Vec<EmojiItem>>)
        requires
            old(self).sessions.wf(),
        ensures
            final(self).sessions.wf(),
            final(self).guilds@ == old(self).guilds@,
            final(self).sessions@.cap == old(self).sessions@.cap,
            final(self).sessions@.reverse == old(self).sessions@.reverse,
            ({
                let s = old(self).sessions@.sessions;
                let i = key_index(s, token@);
                if i < 0 {
                    &&& final(self).sessions@.sessions == s
                    &&& r matches Rsp::Failure(b) && b.err.code == Error::Unauthorized
                } else {
                    &&& final(self).sessions@.sessions == promote(s, i)
                    &&& {
                        let u = s[i].1;
                        if !u.guilds.dom().contains(id) {
                            r matches Rsp::Failure(b) && b.err.code == Error::Unauthorized
                                && b.err.description@ == "Not in the guild"@
                        } else if !old(self).guilds@.dom().contains(id) {
                            r matches Rsp::Failure(b) && b.err.code == Error::Internal
                        } else {
                            r matches Rsp::Success(ok) && ok.ok@ == old(self).guilds@[id].emojis
                        }
                    }
                }
            }),
    {
        match self.sessions.get(token) {
            None => Rsp::err(Error::Unauthorized, None),
            Some(u) => {
                if u.guilds.contains_key(&id) {
                    match self.guilds.get(id) {
                        Some(g) => Rsp::ok(g.emojis),
                        None => Rsp::err(Error::Internal, None),
                    }
                } else {
                    Rsp::err(
                        Error::Unauthorized,
                        Some(String::from_str("Not in the guild")),
                    )
                }
            },
        }
    }

    /// The sticker list of a guild, under the same access rule as the emoji
    /// list.
    pub fn get_guild_stickers(&mut self, token: &String, id: u64) -> (r: Rsp<Vec<StickerItem>>)
        requires
            old(self).sessions.wf(),
        ensures
            final(self).sessions.wf(),
            final(self).guilds@ == old(self).guilds@,
            final(self).sessions@.cap == old(self).sessions@.cap,
            final(self).sessions@.reverse == old(self).sessions@.reverse,
            ({
                let s = old(self).sessions@.sessions;
                let i = key_index(s, token@);
                if i < 0 {
                    &&& final(self).sessions@.sessions == s
                    &&& r matches Rsp::Failure(b) && b.err.code == Error::Unauthorized
                } else {
                    &&& final(self).sessions@.sessions == promote(s, i)
                    &&& {
                        let u = s[i].1;
                        if !u.guilds.dom().contains(id) {
                            r matches Rsp::Failure(b) && b.err.code == Error::Unauthorized
                                && b.err.description@ == "Not in the guild"@
                        } else if !old(self).guilds@.dom().contains(id) {
                            r matches Rsp::Failure(b) && b.err.code == Error::Internal
                        } else {
                            r matches Rsp::Success(ok) && ok.ok@ == old(self).guilds@[id].stickers
                        }
                    }
                }
            }),
    {
        match self.sessions.get(token) {
            None => Rsp::err(Error::Unauthorized, None),
            Some(u) => {
                if u.guilds.contains_key(&id) {
                    match self.guilds.get(id) {
                        Some(g) => Rsp::ok(g.stickers),
                        None => Rsp::err(Error::Internal, None),
                    }
                } else {
                    Rsp::err(
                        Error::Unauthorized,
                        Some(String::from_str("Not in the guild")),
                    )
                }
            },
        }
    }

    /// The emoji list of a guild for the unauthenticated development
    /// endpoint: empty when the gateway has not delivered the guild.
    pub fn get_emojis(&self, guildid: u64) -> (r: Vec<EmojiItem>)
        ensures
            self.guilds@.dom().contains(guildid) ==> r@ == self.guilds@[guildid].emojis,
            !self.guilds@.dom().contains(guildid) ==> r@.len() == 0,
    {
        match self.guilds.get(guildid) {
            Some(g) => g.emojis,
            None => Vec::new(),
        }
    }

    /// The sticker list of a guild for the unauthenticated development
    /// endpoint: empty when the gateway has not delivered the guild.
    pub fn get_stickers(&self, guildid: u64) -> (r: Vec<StickerItem>)
        ensures
            self.guilds@.dom().contains(guildid) ==> r@ == self.guilds@[guildid].stickers,
            !self.guilds@.dom().contains(guildid) ==> r@.len() == 0,
    {
        match self.guilds.get(guildid) {
            Some(g) => g.stickers,
            None => Vec::new(),
        }
    }

    /// The cached guilds the caller belongs to, each paired with the
    /// caller's permission bits: exactly one record per guild present both
    /// in the cache and in the caller's own guild list, and nothing else.
    pub fn overlapping_guilds(&self, user_guilds: &HashMap<u64, u64>) -> (r: Vec<
        PartialGuildWithPermission,
    >)
        ensures
            forall|q: int|
                0 <= q < r@.len() ==> overlapping_entry_ok(
                    self.guilds@,
                    user_guilds@,
                    (#[trigger] r@[q])@,
                ),
            forall|id: u64|
                #![auto]
                self.guilds@.dom().contains(id) && user_guilds@.dom().contains(id)
                    ==> contains_view(
                    r@,
                    from_partial_guild_spec(self.guilds@[id], user_guilds@[id]),
                ),
            r@.len() == self.guilds@.dom().intersect(user_guilds@.dom()).len(),
    {
        let entries = self.guilds.entries();
        let mut out: Vec<PartialGuildWithPermission> = Vec::new();
        let ghost mut seen: Set<u64> = Set::empty();
        let n = entries.len();
        let mut k: usize = 0;
        while k < n
            invariant
                0 <= k <= n,
                n == entries@.len(),
                crate::guild_cache::enumerates_guild_map(entries@, self.guilds@),
                seen.finite(),
                out@.len() == seen.len(),
                forall|id2: u64|
                    #[trigger] seen.contains(id2) == (listed_key_before(entries@, k as int, id2)
                        && user_guilds@.dom().contains(id2)),
                forall|q: int|
                    0 <= q < out@.len() ==> overlapping_entry_ok(
                        self.guilds@,
                        user_guilds@,
                        (#[trigger] out@[q])@,
                    ),
                forall|j: int|
                    #![auto]
                    0 <= j < k && user_guilds@.dom().contains(entries@[j].0) ==> contains_view(
                        out@,
                        from_partial_guild_spec(
                            self.guilds@[entries@[j].0],
                            user_guilds@[entries@[j].0],
                        ),
                    ),
            decreases n - k,
        {
            let ghost kk = k as int;
            let id = entries[k].0;
            let ghost out_before = out@;
            let ghost seen_before = seen;
            match user_guilds.get(&id) {
                Some(p) => {
                    let snapshot = entries[k].1.clone();
                    proof {
                        assert(self.guilds@.contains_pair(
                            entries@[k as int].0,
                            entries@[k as int].1@,
                        ));
                        assert(user_guilds@.dom().contains(id));
                        assert(user_guilds@[id] == *p);
                        assert(!seen.contains(id)) by {
                            if seen.contains(id) {
                                let j = choose|j: int|
                                    0 <= j < kk && (#[trigger] entries@[j]).0 == id;
                                assert(entries@[j].0 != entries@[kk].0);
                            }
                        }
                        seen = seen.insert(id);
                        assert(seen.len() == seen_before.len() + 1);
                    }
                    let item = PartialGuildWithPermission::from_partial_guild(snapshot, *p);
                    out.push(item);
                },
                None => {
                    proof {
                        assert(!user_guilds@.dom().contains(id));
                    }
                },
            }
            proof {
                assert forall|id2: u64|
                    #[trigger] seen.contains(id2) == (listed_key_before(entries@, kk + 1, id2)
                        && user_guilds@.dom().contains(id2)) by {
                    if id2 == id {
                        if user_guilds@.dom().contains(id) {
                            assert(entries@[kk].0 == id2);
                            assert(listed_key_before(entries@, kk + 1, id2));
                        } else {
                            assert(!seen_before.contains(id2));
                            assert(seen == seen_before);
                        }
                    } else {
                        assert(seen.contains(id2) == seen_before.contains(id2));
                        assert(listed_key_before(entries@, kk + 1, id2) == listed_key_before(
                            entries@,
                            kk,
                            id2,
                        )) by {
                            if listed_key_before(entries@, kk + 1, id2) {
                                let j = choose|j: int|
                                    0 <= j < kk + 1 && (#[trigger] entries@[j]).0 == id2;
                                assert(j < kk);
                            }
                        }
                    }
                }
                assert(forall|q: int|
                    0 <= q < out_before.len() ==> (#[trigger] out@[q]) == out_before[q]);
                assert forall|q: int|
                    0 <= q < out@.len() implies overlapping_entry_ok(
                        self.guilds@,
                        user_guilds@,
                        (#[trigger] out@[q])@,
                    ) by {
                    if q < out_before.len() {
                        assert(overlapping_entry_ok(self.guilds@, user_guilds@, out_before[q]@));
                        assert(out@[q] == out_before[q]);
                    } else {
                        assert(user_guilds@.dom().contains(id));
                        assert((out@[q])@ == from_partial_guild_spec(
                            self.guilds@[id],
                            user_guilds@[id],
                        ));
                    }
                }
                assert forall|j: int|
                    #![auto]
                    0 <= j < kk + 1 && user_guilds@.dom().contains(
                        entries@[j].0,
                    ) implies contains_view(
                    out@,
                    from_partial_guild_spec(
                        self.guilds@[entries@[j].0],
                        user_guilds@[entries@[j].0],
                    ),
                ) by {
                    if j < kk {
                        let g = from_partial_guild_spec(
                            self.guilds@[entries@[j].0],
                            user_guilds@[entries@[j].0],
                        );
                        assert(contains_view(out_before, g));
                        let w = choose|q: int|
                            0 <= q < out_before.len() && (#[trigger] out_before[q])@ == g;
                        assert(out@[w] == out_before[w]);
                        assert(contains_view(out@, g));
                    } else {
                        let q0 = out@.len() - 1;
                        assert(entries@[j].0 == id);
                        assert((out@[q0])@ == from_partial_guild_spec(
                            self.guilds@[id],
                            user_guilds@[id],
                        ));
                        assert(contains_view(
                            out@,
                            from_partial_guild_spec(self.guilds@[id], user_guilds@[id]),
                        ));
                    }
                }
            }
            k = k + 1;
        }
        proof {
            assert forall|id: u64|
                #![auto]
                self.guilds@.dom().contains(id) && user_guilds@.dom().contains(
                    id,
                ) implies contains_view(
                out@,
                from_partial_guild_spec(self.guilds@[id], user_guilds@[id]),
            ) by {
                let j = choose|j: int|
                    0 <= j < entries@.len() && (#[trigger] entries@[j]).0 == id;
                assert(entries@[j].0 == id);
            }
            assert forall|id2: u64|
                seen.contains(id2) == (self.guilds@.dom().contains(id2)
                    && #[trigger] user_guilds@.dom().contains(id2)) by {
                if listed_key_before(entries@, n as int, id2) {
                    let j = choose|j: int|
                        0 <= j < n && (#[trigger] entries@[j]).0 == id2;
                    assert(self.guilds@.contains_pair(entries@[j].0, entries@[j].1@));
                }
                if self.guilds@.dom().contains(id2) {
                    let j = choose|j: int|
                        0 <= j < entries@.len() && (#[trigger] entries@[j]).0 == id2;
                    assert(listed_key_before(entries@, n as int, id2));
                }
            }
            assert(seen =~= self.guilds@.dom().intersect(user_guilds@.dom()));
        }
        out
    }
}

/// Whether one of the first `k` listed cache entries has the given key.
pub open spec fn listed_key_before(
    entries: Seq<(u64, PartialGuild)>,
    k: int,
    id: u64,
) -> bool {
    exists|j: int| 0 <= j < k && (#[trigger] entries[j]).0 == id
}

/// Whether a listed record pairs some guild, present both in the cache and
/// in the caller's guild list, with the caller's permission bits for it.
pub open spec fn overlapping_entry_ok(
    guilds: Map<u64, crate::types::PartialGuildView>,
    user_guilds: Map<u64, u64>,
    g: crate::types::PartialGuildWithPermissionView,
) -> bool {
    exists|id: u64|
        #![auto]
        user_guilds.dom().contains(id) && guilds.dom().contains(id) && g
            == from_partial_guild_spec(guilds[id], user_guilds[id])
}

/// Whether some listed record has the given content.
pub open spec fn contains_view(
    s: Seq<PartialGuildWithPermission>,
    g: crate::types::PartialGuildWithPermissionView,
) -> bool {
    exists|q: int| 0 <= q < s.len() && (#[trigger] s[q])@ == g
}

/// The per-guild permission map a fresh guild list folds into: each guild's
/// permission bits, with the owner flag folded into its reserved bit.
pub open spec fn fold_guild_permissions_spec(items: Seq<(u64, u64, bool)>) -> Map<u64, u64>
    decreases items.len(),
{
    if items.len() == 0 {
        Map::empty()
    } else {
        let last = items.last();
        fold_guild_permissions_spec(items.drop_last()).insert(
            last.0,
            last.1 | (if last.2 {
                8u64
            } else {
                0u64
            }),
        )
    }
}

/// Folds a decoded guild list into the per-guild permission map, the owner
/// flag folded into its reserved bit.
pub fn fold_guild_permissions(items: &Vec<(u64, u64, bool)>) -> (r: HashMap<u64, u64>)
    ensures
        r@ == fold_guild_permissions_spec(items@),
{
    let mut out: HashMap<u64, u64> = HashMap::new();
    let n = items.len();
    let mut i: usize = 0;
    while i < n
        invariant
            0 <= i <= n,
            n == items@.len(),
            out@ == fold_guild_permissions_spec(items@.subrange(0, i as int)),
        decreases n - i,
    {
        let (id, perms, owner) = items[i];
        let bits: u64 = perms | (if owner {
            8u64
        } else {
            0u64
        });
        out.insert(id, bits);
        proof {
            assert(items@.subrange(0, i + 1).drop_last() =~= items@.subrange(0, i as int));
            assert(items@.subrange(0, i + 1).last() == items@[i as int]);
        }
        i = i + 1;
    }
    proof {
        assert(items@.subrange(0, n as int) =~= items@);
    }
    out
}

/// The entry a modelled guild-list element denotes: its id and permission
/// bits as decimal strings, and its owner flag.
pub open spec fn spec_user_guild_entry(j: JsonV) -> Option<(u64, u64, bool)> {
    match spec_parse_u64_field(j, "id"@) {
        Some(id) => match spec_parse_u64_field(j, "permissions"@) {
            Some(p) => match field_bool(j, "owner"@) {
                Some(owner) => Some((id, p, owner)),
                None => None,
            },
            None => None,
        },
        None => None,
    }
}

/// Whether a modelled guild-list response is an array of well-shaped
/// entries.
pub open spec fn user_guilds_shape_ok(doc: Option<JsonV>) -> bool {
    match doc {
        Some(j) => match json_elems_of(j) {
            Some(elems) => forall|i: int|
                0 <= i < elems.len() ==> spec_user_guild_entry(#[trigger] elems[i]) is Some,
            None => false,
        },
        None => false,
    }
}

/// The entries a well-shaped guild-list response denotes, in order.
pub open spec fn spec_user_guilds(doc: Option<JsonV>) -> Seq<(u64, u64, bool)>
    recommends
        user_guilds_shape_ok(doc),
{
    match doc {
        Some(j) => match json_elems_of(j) {
            Some(elems) => elems.map_values(
                |e: JsonV|
                    match spec_user_guild_entry(e) {
                        Some(t) => t,
                        None => (0u64, 0u64, false),
                    },
            ),
            None => Seq::empty(),
        },
        None => Seq::empty(),
    }
}

/// Decodes the remote API's guild-list response: exactly the entries the
/// modelled array denotes, in order, or nothing if the body is not an
/// array of well-shaped entries.
pub fn decode_user_guilds(text: &str) -> (r: Option<Vec<(u64, u64, bool)>>)
    ensures
        r matches Some(out) ==> user_guilds_shape_ok(json_doc_of(text@)) && out@
            == spec_user_guilds(json_doc_of(text@)),
        r is None ==> !user_guilds_shape_ok(json_doc_of(text@)),
{
    let v = match json_parse(text) {
        Some(v) => v,
        None => {
            return None;
        },
    };
    let items = match json_array(&v) {
        Some(items) => items,
        None => {
            return None;
        },
    };
    let ghost doc = json_doc_of(text@);
    let ghost elems = json_nodes_of(items@);
    proof {
        assert(doc == Some(json_node_of(v)));
        assert(json_elems_of(json_node_of(v)) == Some(elems));
    }
    let mut out: Vec<(u64, u64, bool)> = Vec::new();
    let n = items.len();
    let mut i: usize = 0;
    while i < n
        invariant
            0 <= i <= n,
            n == items@.len(),
            elems == json_nodes_of(items@),
            doc == json_doc_of(text@),
            doc matches Some(jv) && json_elems_of(jv) == Some(elems),
            out@.len() == i,
            forall|q: int|
                0 <= q < i ==> spec_user_guild_entry(#[trigger] elems[q]) == Some(out@[q]),
        decreases n - i,
    {
        let item = &items[i];
        proof {
            assert(json_node_of(items@[i as int]) == elems[i as int]);
        }
        let id = match crate::gateway::decode_u64_field(item, "id") {
            Some(id) => id,
            None => {
                proof {
                    assert(spec_user_guild_entry(elems[i as int]) is None);
                }
                return None;
            },
        };
        let permissions = match crate::gateway::decode_u64_field(item, "permissions") {
            Some(p) => p,
            None => {
                proof {
                    assert(spec_user_guild_entry(elems[i as int]) is None);
                }
                return None;
            },
        };
        let owner = match json_get(item, "owner") {
            Some(ov) => match json_as_bool(ov) {
                Some(b) => b,
                None => {
                    proof {
                        assert(spec_user_guild_entry(elems[i as int]) is None);
                    }
                    return None;
                },
            },
            None => {
                proof {
                    assert(spec_user_guild_entry(elems[i as int]) is None);
                }
                return None;
            },
        };
        out.push((id, permissions, owner));
        i = i + 1;
    }
    proof {
        assert(out@ =~= spec_user_guilds(doc));
    }
    Some(out)
}

/// Whether a modelled current-user response has every required field in
/// the required shape.
pub open spec fn discord_user_shape_ok(doc: Option<JsonV>) -> bool {
    match doc {
        Some(j) => {
            &&& spec_parse_u64_field(j, "id"@) is Some
            &&& field_text(j, "username"@) is Some
            &&& field_text(j, "discriminator"@) is Some
        },
        None => false,
    }
}

/// Whether a decoded profile carries exactly the modelled response's
/// fields: the id the decimal parse of the string id field, the rest
/// copied.
pub open spec fn discord_user_matches(u: DiscordUser, doc: Option<JsonV>) -> bool {
    match doc {
        Some(j) => {
            &&& Some(u.id) == spec_parse_u64_field(j, "id"@)
            &&& Some(u.username@) == field_text(j, "username"@)
            &&& Some(u.discriminator@) == field_text(j, "discriminator"@)
            &&& opt_string_view(u.avatar) == field_text(j, "avatar"@)
        },
        None => false,
    }
}

/// Decodes the remote API's current-user response: the profile the
/// modelled body denotes, its id as a decimal string, or nothing if a
/// required field is missing or ill-shaped.
pub fn decode_discord_user(text: &str) -> (r: Option<DiscordUser>)
    ensures
        r matches Some(u) ==> discord_user_shape_ok(json_doc_of(text@)) && discord_user_matches(
            u,
            json_doc_of(text@),
        ),
        r is None ==> !discord_user_shape_ok(json_doc_of(text@)),
{
    let v = match json_parse(text) {
        Some(v) => v,
        None => {
            return None;
        },
    };
    let id = match crate::gateway::decode_u64_field(&v, "id") {
        Some(id) => id,
        None => {
            return None;
        },
    };
    let username = match json_get(&v, "username") {
        Some(uv) => match json_as_string(uv) {
            Some(name) => name,
            None => {
                return None;
            },
        },
        None => {
            return None;
        },
    };
    let discriminator = match json_get(&v, "discriminator") {
        Some(dv) => match json_as_string(dv) {
            Some(d) => d,
            None => {
                return None;
            },
        },
        None => {
            return None;
        },
    };
    let avatar = match json_get(&v, "avatar") {
        Some(av) => json_as_string(av),
        None => None,
    };
    Some(DiscordUser { id, username, discriminator, avatar })
}

} // verus!
