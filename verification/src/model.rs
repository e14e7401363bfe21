//! Domain value types — the nouns the whole app speaks in.

use crate::ids::{AssetHash, ChannelId, GuildId, UserId};
use vstd::prelude::*;

verus! {

/// A Discord guild (server) the user is in.
#[derive(Debug, PartialEq, Eq)]
pub struct Guild {
    pub id: GuildId,
    pub name: String,
    pub icon: Option<AssetHash>,
}

/// The mathematical value of a [`Guild`].
pub struct SpecGuild {
    pub id: GuildId,
    pub name: Seq<char>,
    pub icon: Option<Seq<char>>,
}

/// The view of an optional asset hash.
pub open spec fn hash_view(h: Option<AssetHash>) -> Option<Seq<char>> {
    match h {
        Some(a) => Some(a@),
        None => None,
    }
}

impl View for Guild {
    type V = SpecGuild;

    open spec fn view(&self) -> SpecGuild {
        SpecGuild { id: self.id, name: self.name@, icon: hash_view(self.icon) }
    }
}

impl Clone for Guild {
    fn clone(&self) -> (r: Self)
        ensures
            r == *self,
    {
        Guild { id: self.id, name: self.name.clone(), icon: self.icon.clone() }
    }
}

/// A *voice* channel. By construction (filtered by the protocol parser) this is
/// only ever `GUILD_VOICE` (type 2) or `STAGE_VOICE` (type 13) — the menu never
/// sees a text channel.
#[derive(Debug, PartialEq, Eq)]
pub struct VoiceChannel {
    pub id: ChannelId,
    pub name: String,
    pub kind: VoiceKind,
}

/// The mathematical value of a [`VoiceChannel`].
pub struct SpecVoiceChannel {
    pub id: ChannelId,
    pub name: Seq<char>,
    pub kind: VoiceKind,
}

impl View for VoiceChannel {
    type V = SpecVoiceChannel;

    open spec fn view(&self) -> SpecVoiceChannel {
        SpecVoiceChannel { id: self.id, name: self.name@, kind: self.kind }
    }
}

impl Clone for VoiceChannel {
    fn clone(&self) -> (r: Self)
        ensures
            r == *self,
    {
        VoiceChannel { id: self.id, name: self.name.clone(), kind: self.kind }
    }
}

/// The two voice channel taxonomies we support.
#[derive(Clone, Copy, Debug, PartialEq, Eq, Structural)]
#[non_exhaustive]
pub enum VoiceKind {
    /// Discord `GUILD_VOICE`, channel `type == 2`.
    Guild,
    /// Discord `STAGE_VOICE`, channel `type == 13`. Speaker/audience model.
    Stage,
}

/// The voice kind of a raw Discord channel `type`, if it is a voice channel.
pub open spec fn spec_kind_of_type(t: u8) -> Option<VoiceKind> {
    if t == 2 {
        Some(VoiceKind::Guild)
    } else if t == 13 {
        Some(VoiceKind::Stage)
    } else {
        None
    }
}

impl VoiceKind {
    /// Map a raw Discord channel `type` to a `VoiceKind`, or `None` if it is not
    /// a voice channel. This is the single source of truth for "what is a voice
    /// channel".
    pub fn from_discord_type(t: u8) -> (k: Option<VoiceKind>)
        ensures
            k == spec_kind_of_type(t),
    {
        match t {
            2 => Some(VoiceKind::Guild),
            13 => Some(VoiceKind::Stage),
            _ => None,
        }
    }
}

/// A member currently in a voice channel, with live speaking/mute state.
#[derive(Debug, PartialEq, Eq)]
pub struct VoiceMember {
    pub user: UserId,
    pub name: String,
    pub avatar: Option<AssetHash>,
    pub speaking: bool,
    pub muted: bool,
    pub deafened: bool,
}

/// The mathematical value of a [`VoiceMember`].
pub struct SpecVoiceMember {
    pub user: UserId,
    pub name: Seq<char>,
    pub avatar: Option<Seq<char>>,
    pub speaking: bool,
    pub muted: bool,
    pub deafened: bool,
}

impl View for VoiceMember {
    type V = SpecVoiceMember;

    open spec fn view(&self) -> SpecVoiceMember {
        SpecVoiceMember {
            user: self.user,
            name: self.name@,
            avatar: hash_view(self.avatar),
            speaking: self.speaking,
            muted: self.muted,
            deafened: self.deafened,
        }
    }
}

impl Clone for VoiceMember {
    fn clone(&self) -> (r: Self)
        ensures
            r == *self,
    {
        VoiceMember {
            user: self.user,
            name: self.name.clone(),
            avatar: self.avatar.clone(),
            speaking: self.speaking,
            muted: self.muted,
            deafened: self.deafened,
        }
    }
}

/// The 8 overlay anchor positions: 4 corners + 4 edge midpoints.
#[derive(Clone, Copy, Debug, PartialEq, Eq, Hash, Structural)]
#[non_exhaustive]
pub enum Anchor {
    TopLeft,
    TopCenter,
    TopRight,
    MidLeft,
    MidRight,
    BottomLeft,
    BottomCenter,
    BottomRight,
}

/// The anchor that follows `a` in the clockwise cycle
/// TopLeft → TopCenter → TopRight → MidRight → BottomRight → BottomCenter →
/// BottomLeft → MidLeft → TopLeft.
pub open spec fn spec_next_anchor(a: Anchor) -> Anchor {
    match a {
        Anchor::TopLeft => Anchor::TopCenter,
        Anchor::TopCenter => Anchor::TopRight,
        Anchor::TopRight => Anchor::MidRight,
        Anchor::MidRight => Anchor::BottomRight,
        Anchor::BottomRight => Anchor::BottomCenter,
        Anchor::BottomCenter => Anchor::BottomLeft,
        Anchor::BottomLeft => Anchor::MidLeft,
        Anchor::MidLeft => Anchor::TopLeft,
    }
}

/// `a` advanced `k` times along the cycle.
pub open spec fn anchor_after(a: Anchor, k: nat) -> Anchor
    decreases k,
{
    if k == 0 {
        a
    } else {
        spec_next_anchor(anchor_after(a, (k - 1) as nat))
    }
}

impl Anchor {
    /// All 8 anchors in a stable cycle order (used by `InputIntent::AnchorCycle`
    /// and by geometry tests).
    pub const ALL: [Anchor; 8] = [
        Anchor::TopLeft,
        Anchor::TopCenter,
        Anchor::TopRight,
        Anchor::MidRight,
        Anchor::BottomRight,
        Anchor::BottomCenter,
        Anchor::BottomLeft,
        Anchor::MidLeft,
    ];

    /// The next anchor in `ALL` order, wrapping.
    pub fn next(self) -> (r: Anchor)
        ensures
            r == spec_next_anchor(self),
    {
        match self {
            Anchor::TopLeft => Anchor::TopCenter,
            Anchor::TopCenter => Anchor::TopRight,
            Anchor::TopRight => Anchor::MidRight,
            Anchor::MidRight => Anchor::BottomRight,
            Anchor::BottomRight => Anchor::BottomCenter,
            Anchor::BottomCenter => Anchor::BottomLeft,
            Anchor::BottomLeft => Anchor::MidLeft,
            Anchor::MidLeft => Anchor::TopLeft,
        }
    }
}

/// True when `b` is reached from `a` within the first eight positions of the
/// cycle.
pub open spec fn reached_within_eight(a: Anchor, b: Anchor) -> bool {
    exists|k: nat| k < 8 && #[trigger] anchor_after(a, k) == b
}

/// The anchor cycle has period exactly 8: from any anchor, eight steps of
/// `next` come back to the start, and the first eight positions visited are
/// pairwise distinct, so the cycle reaches every one of the 8 anchors.
pub proof fn lemma_anchor_cycle(a: Anchor)
    ensures
        anchor_after(a, 8) == a,
        forall|i: nat, j: nat| i < j < 8 ==> anchor_after(a, i) != anchor_after(a, j),
        forall|b: Anchor| #[trigger] reached_within_eight(a, b),
{
    let s = seq![
        anchor_after(a, 0),
        anchor_after(a, 1),
        anchor_after(a, 2),
        anchor_after(a, 3),
        anchor_after(a, 4),
        anchor_after(a, 5),
        anchor_after(a, 6),
        anchor_after(a, 7),
    ];
    assert(anchor_after(a, 0) == a);
    assert(anchor_after(a, 1) == spec_next_anchor(anchor_after(a, 0)));
    assert(anchor_after(a, 2) == spec_next_anchor(anchor_after(a, 1)));
    assert(anchor_after(a, 3) == spec_next_anchor(anchor_after(a, 2)));
    assert(anchor_after(a, 4) == spec_next_anchor(anchor_after(a, 3)));
    assert(anchor_after(a, 5) == spec_next_anchor(anchor_after(a, 4)));
    assert(anchor_after(a, 6) == spec_next_anchor(anchor_after(a, 5)));
    assert(anchor_after(a, 7) == spec_next_anchor(anchor_after(a, 6)));
    assert(anchor_after(a, 8) == spec_next_anchor(anchor_after(a, 7)));
    assert forall|i: nat, j: nat| i < j < 8 implies anchor_after(a, i) != anchor_after(a, j) by {
        assert(s[i as int] == anchor_after(a, i));
        assert(s[j as int] == anchor_after(a, j));
    }
    assert forall|b: Anchor| #[trigger] reached_within_eight(a, b) by {
        if anchor_after(a, 0) == b {
        } else if anchor_after(a, 1) == b {
        } else if anchor_after(a, 2) == b {
        } else if anchor_after(a, 3) == b {
        } else if anchor_after(a, 4) == b {
        } else if anchor_after(a, 5) == b {
        } else if anchor_after(a, 6) == b {
        } else {
            assert(anchor_after(a, 7) == b);
        }
    }
}

} // verus!
