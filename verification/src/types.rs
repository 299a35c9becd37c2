//! Value records mirrored from the remote service: guild snapshots with
//! their emojis, stickers and members, and the record describing the
//! logged-in end user. These are plain immutable data; a guild snapshot is
//! replaced wholesale on every create event and never merged.

use vstd::prelude::*;

verus! {

/// A custom emoji belonging to a guild.
#[derive(Debug, PartialEq, Eq)]
pub struct EmojiItem {
    pub id: u64,
    pub animated: bool,
    pub available: bool,
    pub managed: bool,
    pub name: String,
}

/// A sticker belonging to a guild.
#[derive(Debug, PartialEq, Eq)]
pub struct StickerItem {
    pub id: u64,
    pub name: String,
    pub description: Option<String>,
}

/// A reference to a user, as it appears inside a guild member record.
#[derive(Debug, Clone, Copy, PartialEq, Eq, Structural)]
pub struct User {
    pub id: u64,
}

/// A guild membership: the user and the permission bits the guild grants.
#[derive(Debug, Clone, Copy, PartialEq, Eq, Structural)]
pub struct GuildMember {
    pub user: User,
    pub permissions: u64,
}

/// The snapshot of a guild as delivered by a guild-create event.
#[derive(Debug, PartialEq, Eq)]
pub struct PartialGuild {
    pub id: u64,
    pub name: String,
    pub icon: String,
    pub emojis: Vec<EmojiItem>,
    pub stickers: Vec<StickerItem>,
    pub description: Option<String>,
    pub members: Vec<GuildMember>,
}

/// The mathematical content of a guild snapshot: the same fields, with the
/// vectors abstracted to sequences.
#[verifier::ext_equal]
pub struct PartialGuildView {
    pub id: u64,
    pub name: String,
    pub icon: String,
    pub emojis: Seq<EmojiItem>,
    pub stickers: Seq<StickerItem>,
    pub description: Option<String>,
    pub members: Seq<GuildMember>,
}

impl View for PartialGuild {
    type V = PartialGuildView;

    open spec fn view(&self) -> PartialGuildView {
        PartialGuildView {
            id: self.id,
            name: self.name,
            icon: self.icon,
            emojis: self.emojis@,
            stickers: self.stickers@,
            description: self.description,
            members: self.members@,
        }
    }
}

/// A guild snapshot paired with the permission bits of one particular user,
/// as served to that user.
#[derive(Debug, PartialEq, Eq)]
pub struct PartialGuildWithPermission {
    pub id: u64,
    pub name: String,
    pub icon: String,
    pub emojis: Vec<EmojiItem>,
    pub stickers: Vec<StickerItem>,
    pub description: Option<String>,
    pub permissions: u64,
}

/// The mathematical content of a guild-with-permission record.
#[verifier::ext_equal]
pub struct PartialGuildWithPermissionView {
    pub id: u64,
    pub name: String,
    pub icon: String,
    pub emojis: Seq<EmojiItem>,
    pub stickers: Seq<StickerItem>,
    pub description: Option<String>,
    pub permissions: u64,
}

impl View for PartialGuildWithPermission {
    type V = PartialGuildWithPermissionView;

    open spec fn view(&self) -> PartialGuildWithPermissionView {
        PartialGuildWithPermissionView {
            id: self.id,
            name: self.name,
            icon: self.icon,
            emojis: self.emojis@,
            stickers: self.stickers@,
            description: self.description,
            permissions: self.permissions,
        }
    }
}

/// What pairing a guild snapshot with one user's permission bits yields: the
/// same fields, with the member list dropped.
pub open spec fn from_partial_guild_spec(
    g: PartialGuildView,
    permissions: u64,
) -> PartialGuildWithPermissionView {
    PartialGuildWithPermissionView {
        id: g.id,
        name: g.name,
        icon: g.icon,
        emojis: g.emojis,
        stickers: g.stickers,
        description: g.description,
        permissions,
    }
}

impl PartialGuildWithPermission {
    /// Pairs a guild snapshot with one user's permission bits, keeping every
    /// other field of the snapshot as it is (the member list is dropped).
    pub fn from_partial_guild(guild: PartialGuild, permissions: u64) -> (r: Self)
        ensures
            r@ == from_partial_guild_spec(guild@, permissions),
    {
        PartialGuildWithPermission {
            permissions,
            id: guild.id,
            name: guild.name,
            icon: guild.icon,
            emojis: guild.emojis,
            stickers: guild.stickers,
            description: guild.description,
        }
    }
}

/// The identity block of the logged-in end user, as served to the client.
#[derive(Debug, PartialEq, Eq)]
pub struct UserLogin {
    pub id: u64,
    pub avatar: Option<String>,
    pub username: String,
    pub discriminator: String,
}

impl UserLogin {
    /// The identity block served for a freshly fetched profile: the same
    /// fields, as they are.
    pub fn from_discord_user(user: crate::discord::DiscordUser) -> (r: UserLogin)
        ensures
            r.id == user.id,
            r.avatar == user.avatar,
            r.username == user.username,
            r.discriminator == user.discriminator,
    {
        UserLogin {
            id: user.id,
            avatar: user.avatar,
            username: user.username,
            discriminator: user.discriminator,
        }
    }
}

/// The character content of an optional string.
pub open spec fn opt_string_view(o: Option<String>) -> Option<Seq<char>> {
    match o {
        Some(s) => Some(s@),
        None => None,
    }
}

/// Clones an optional string, keeping its value.
pub fn clone_opt_string(v: &Option<String>) -> (r: Option<String>)
    ensures
        r == *v,
{
    match v {
        Some(s) => Some(s.clone()),
        None => None,
    }
}

impl Clone for EmojiItem {
    /// A clone keeps every field.
    fn clone(&self) -> (r: Self)
        ensures
            r == *self,
    {
        EmojiItem {
            id: self.id,
            animated: self.animated,
            available: self.available,
            managed: self.managed,
            name: self.name.clone(),
        }
    }
}

impl Clone for StickerItem {
    /// A clone keeps every field.
    fn clone(&self) -> (r: Self)
        ensures
            r == *self,
    {
        StickerItem {
            id: self.id,
            name: self.name.clone(),
            description: clone_opt_string(&self.description),
        }
    }
}

/// Clones a vector of emojis, keeping its contents.
fn clone_emojis(v: &Vec<EmojiItem>) -> (r: Vec<EmojiItem>)
    ensures
        r@ == v@,
{
    let r = v.clone();
    proof {
        assert forall|i: int| 0 <= i < v@.len() implies r@[i] == v@[i] by {
            assert(cloned::<EmojiItem>(v@[i], r@[i]));
        }
        assert(r@ =~= v@);
    }
    r
}

/// Clones a vector of stickers, keeping its contents.
fn clone_stickers(v: &Vec<StickerItem>) -> (r: Vec<StickerItem>)
    ensures
        r@ == v@,
{
    let r = v.clone();
    proof {
        assert forall|i: int| 0 <= i < v@.len() implies r@[i] == v@[i] by {
            assert(cloned::<StickerItem>(v@[i], r@[i]));
        }
        assert(r@ =~= v@);
    }
    r
}

/// Clones a vector of members, keeping its contents.
fn clone_members(v: &Vec<GuildMember>) -> (r: Vec<GuildMember>)
    ensures
        r@ == v@,
{
    let r = v.clone();
    proof {
        assert forall|i: int| 0 <= i < v@.len() implies r@[i] == v@[i] by {
            assert(cloned::<GuildMember>(v@[i], r@[i]));
        }
        assert(r@ =~= v@);
    }
    r
}

impl Clone for PartialGuild {
    /// A clone keeps the snapshot's whole content.
    fn clone(&self) -> (r: Self)
        ensures
            r@ == self@,
    {
        let r = PartialGuild {
            id: self.id,
            name: self.name.clone(),
            icon: self.icon.clone(),
            emojis: clone_emojis(&self.emojis),
            stickers: clone_stickers(&self.stickers),
            description: clone_opt_string(&self.description),
            members: clone_members(&self.members),
        };
        proof {
            assert(r@ =~= self@);
        }
        r
    }
}

impl Clone for PartialGuildWithPermission {
    /// A clone keeps the record's whole content.
    fn clone(&self) -> (r: Self)
        ensures
            r@ == self@,
    {
        let r = PartialGuildWithPermission {
            id: self.id,
            name: self.name.clone(),
            icon: self.icon.clone(),
            emojis: clone_emojis(&self.emojis),
            stickers: clone_stickers(&self.stickers),
            description: clone_opt_string(&self.description),
            permissions: self.permissions,
        };
        proof {
            assert(r@ =~= self@);
        }
        r
    }
}

impl Clone for UserLogin {
    /// A clone keeps every field.
    fn clone(&self) -> (r: Self)
        ensures
            r == *self,
    {
        UserLogin {
            id: self.id,
            avatar: clone_opt_string(&self.avatar),
            username: self.username.clone(),
            discriminator: self.discriminator.clone(),
        }
    }
}

} // verus!
