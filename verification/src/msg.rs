//! Domain-typed messages that cross boundaries. Split per-domain so a Discord
//! change never touches the input or render vocabulary.

use crate::ids::{ChannelId, GuildId, UserId};
use crate::model::{Guild, SpecGuild, SpecVoiceChannel, SpecVoiceMember, VoiceChannel, VoiceMember};
use vstd::prelude::*;

verus! {

/// INPUT domain: input source → menu. Semantic, never keycodes.
#[derive(Clone, Copy, Debug, PartialEq, Eq, Structural)]
#[non_exhaustive]
pub enum InputIntent {
    /// The chord that opens/toggles the menu.
    Chord,
    Up,
    Down,
    Left,
    Right,
    Confirm,
    Back,
    /// Explicit dismiss (close menu, release input).
    Dismiss,
    /// Cycle the overlay through the 8 anchor positions.
    AnchorCycle,
}

/// INPUT control: menu → input source. Logical capture of the virtual-keyboard
/// nav keys while the menu is open.
#[derive(Clone, Copy, Debug, PartialEq, Eq, Structural)]
#[non_exhaustive]
pub enum InputControl {
    Grab,
    Release,
}

/// DISCORD command: menu → Discord client. Domain verbs, never RPC opcodes.
#[derive(Clone, Copy, Debug, PartialEq, Eq, Structural)]
#[non_exhaustive]
pub enum DiscordCommand {
    Connect,
    ListGuilds,
    ListVoiceChannels { guild: GuildId },
    JoinVoice { channel: ChannelId },
    /// → `SELECT_VOICE_CHANNEL { channel_id: null }`.
    LeaveVoice,
    /// Per-CHANNEL subscription to voice-state + speaking events.
    SubscribeVoice { channel: ChannelId },
    UnsubscribeVoice { channel: ChannelId },
}

/// Why the Discord connection went away — drives the recovery UX.
#[derive(Clone, Copy, Debug, PartialEq, Eq, Structural)]
#[non_exhaustive]
pub enum DisconnectReason {
    /// No client / IPC socket — the user must start Discord.
    ClientNotRunning,
    SocketClosed,
    AuthFailed,
    Timeout,
}

/// DISCORD event: Discord client → menu. Already-filtered, already-domain.
#[derive(Clone, Debug, PartialEq, Eq)]
#[non_exhaustive]
pub enum DiscordEvent {
    Connected { user: UserId },
    Disconnected { reason: DisconnectReason },
    Guilds(Vec<Guild>),
    /// Channels here are already filtered to voice kinds.
    VoiceChannels { guild: GuildId, channels: Vec<VoiceChannel> },
    JoinedVoice { channel: ChannelId },
    LeftVoice,
    VoiceMembers { channel: ChannelId, members: Vec<VoiceMember> },
    SpeakingChanged { channel: ChannelId, user: UserId, speaking: bool },
}

/// The mathematical value of a [`DiscordEvent`].
pub enum SpecDiscordEvent {
    Connected { user: UserId },
    Disconnected { reason: DisconnectReason },
    Guilds(Seq<SpecGuild>),
    VoiceChannels { guild: GuildId, channels: Seq<SpecVoiceChannel> },
    JoinedVoice { channel: ChannelId },
    LeftVoice,
    VoiceMembers { channel: ChannelId, members: Seq<SpecVoiceMember> },
    SpeakingChanged { channel: ChannelId, user: UserId, speaking: bool },
}

/// Element-wise view of a sequence of guilds.
pub open spec fn guilds_view(v: Seq<Guild>) -> Seq<SpecGuild> {
    v.map_values(|g: Guild| g@)
}

/// Element-wise view of a sequence of voice channels.
pub open spec fn channels_view(v: Seq<VoiceChannel>) -> Seq<SpecVoiceChannel> {
    v.map_values(|c: VoiceChannel| c@)
}

/// Element-wise view of a sequence of voice members.
pub open spec fn members_view(v: Seq<VoiceMember>) -> Seq<SpecVoiceMember> {
    v.map_values(|m: VoiceMember| m@)
}

impl View for DiscordEvent {
    type V = SpecDiscordEvent;

    open spec fn view(&self) -> SpecDiscordEvent {
        match self {
            DiscordEvent::Connected { user } => SpecDiscordEvent::Connected { user: *user },
            DiscordEvent::Disconnected { reason } => SpecDiscordEvent::Disconnected {
                reason: *reason,
            },
            DiscordEvent::Guilds(g) => SpecDiscordEvent::Guilds(guilds_view(g@)),
            DiscordEvent::VoiceChannels { guild, channels } => SpecDiscordEvent::VoiceChannels {
                guild: *guild,
                channels: channels_view(channels@),
            },
            DiscordEvent::JoinedVoice { channel } => SpecDiscordEvent::JoinedVoice {
                channel: *channel,
            },
            DiscordEvent::LeftVoice => SpecDiscordEvent::LeftVoice,
            DiscordEvent::VoiceMembers { channel, members } => SpecDiscordEvent::VoiceMembers {
                channel: *channel,
                members: members_view(members@),
            },
            DiscordEvent::SpeakingChanged { channel, user, speaking } =>
                SpecDiscordEvent::SpeakingChanged {
                channel: *channel,
                user: *user,
                speaking: *speaking,
            },
        }
    }
}

/// The per-channel event stream item produced by a voice subscription: the
/// subset of `DiscordEvent` that a voice subscription emits.
#[derive(Clone, Debug, PartialEq, Eq)]
#[non_exhaustive]
pub enum VoiceEvent {
    Members { channel: ChannelId, members: Vec<VoiceMember> },
    SpeakingChanged { channel: ChannelId, user: UserId, speaking: bool },
}

/// The mathematical value of a [`VoiceEvent`].
pub enum SpecVoiceEvent {
    Members { channel: ChannelId, members: Seq<SpecVoiceMember> },
    SpeakingChanged { channel: ChannelId, user: UserId, speaking: bool },
}

impl View for VoiceEvent {
    type V = SpecVoiceEvent;

    open spec fn view(&self) -> SpecVoiceEvent {
        match self {
            VoiceEvent::Members { channel, members } => SpecVoiceEvent::Members {
                channel: *channel,
                members: members_view(members@),
            },
            VoiceEvent::SpeakingChanged { channel, user, speaking } =>
                SpecVoiceEvent::SpeakingChanged {
                channel: *channel,
                user: *user,
                speaking: *speaking,
            },
        }
    }
}

} // verus!
