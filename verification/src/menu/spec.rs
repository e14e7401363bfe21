//! The mathematical model of the menu engine: its state, and the transition
//! and rendering functions that the executable engine is proved to follow.

use crate::ids::{ChannelId, GuildId, UserId};
use crate::model::{Anchor, SpecGuild, SpecVoiceChannel, SpecVoiceMember, VoiceKind, spec_next_anchor};
use crate::msg::{DiscordCommand, InputControl, InputIntent, SpecDiscordEvent};
use crate::scene::{RowState, SpecMenuView, SpecOverlay, SpecRoster, SpecRow, SpecScene};
use vstd::prelude::*;

verus! {

/// Which menu screen is showing. `Closed` means the menu layer is hidden (the
/// overlay may still be live).
#[derive(Clone, Copy, Debug, PartialEq, Eq, Structural)]
pub enum Screen {
    Closed,
    Guilds { cursor: usize, loading: bool },
    Channels { guild: GuildId, cursor: usize, loading: bool },
}

/// The live voice connection (the overlay's source of truth), as values.
pub struct SpecConnection {
    pub channel: ChannelId,
    pub name: Seq<char>,
    pub members: Seq<SpecVoiceMember>,
}

/// The whole state of the menu engine, as values.
pub struct SpecMenu {
    pub screen: Screen,
    pub guilds: Seq<SpecGuild>,
    /// Voice channels of the guild currently being browsed.
    pub channels: Seq<SpecVoiceChannel>,
    pub connection: Option<SpecConnection>,
    pub anchor: Anchor,
}

/// The result of one input: next state, Discord commands (in order), and
/// input-capture transitions.
pub struct SpecStep {
    pub menu: SpecMenu,
    pub cmds: Seq<DiscordCommand>,
    pub controls: Seq<InputControl>,
}

/// A step that changes nothing and asks for nothing.
pub open spec fn idle(m: SpecMenu) -> SpecStep {
    SpecStep { menu: m, cmds: seq![], controls: seq![] }
}

/// Is the menu layer visible?
pub open spec fn is_open(m: SpecMenu) -> bool {
    !(m.screen is Closed)
}

/// Is there a live voice connection?
pub open spec fn is_connected(m: SpecMenu) -> bool {
    m.connection is Some
}

/// The menu closed; input is released only if it was open.
pub open spec fn close_menu(m: SpecMenu) -> SpecStep {
    if is_open(m) {
        SpecStep { menu: SpecMenu { screen: Screen::Closed, ..m }, cmds: seq![], controls: seq![InputControl::Release] }
    } else {
        idle(m)
    }
}

/// Number of rows of the channel screen: the synthetic Leave row when
/// connected, then one per voice channel.
pub open spec fn channel_row_count(m: SpecMenu) -> nat {
    (if is_connected(m) { 1nat } else { 0nat }) + m.channels.len()
}

/// The cursor moved by `delta` rows, wrapping around the current list; no
/// change on the closed screen or an empty list.
pub open spec fn move_cursor(m: SpecMenu, delta: int) -> SpecMenu {
    match m.screen {
        Screen::Guilds { cursor, loading } => {
            let len = m.guilds.len();
            if len == 0 {
                m
            } else {
                SpecMenu {
                    screen: Screen::Guilds { cursor: ((cursor + delta) % (len as int)) as usize, loading },
                    ..m
                }
            }
        },
        Screen::Channels { guild, cursor, loading } => {
            let len = channel_row_count(m);
            if len == 0 {
                m
            } else {
                SpecMenu {
                    screen: Screen::Channels {
                        guild,
                        cursor: ((cursor + delta) % (len as int)) as usize,
                        loading,
                    },
                    ..m
                }
            }
        },
        Screen::Closed => m,
    }
}

/// Leave the connected channel, if any: forget the connection and ask Discord
/// to leave and unsubscribe.
pub open spec fn leave(m: SpecMenu) -> SpecStep {
    match m.connection {
        Some(c) => SpecStep {
            menu: SpecMenu { connection: None, ..m },
            cmds: seq![DiscordCommand::LeaveVoice, DiscordCommand::UnsubscribeVoice { channel: c.channel }],
            controls: seq![],
        },
        None => idle(m),
    }
}

/// `first` followed by closing the menu.
pub open spec fn then_close(first: SpecStep) -> SpecStep {
    let c = close_menu(first.menu);
    SpecStep { menu: c.menu, cmds: first.cmds, controls: first.controls + c.controls }
}

/// Choose the voice channel at `idx`: leave it if it is the connected one,
/// otherwise join it (optimistically taking it as the connection, with an
/// empty roster) and subscribe to its voice events.
pub open spec fn choose_channel(m: SpecMenu, idx: int) -> SpecStep {
    let ch = m.channels[idx];
    match m.connection {
        Some(c) if c.channel == ch.id => leave(m),
        _ => SpecStep {
            menu: SpecMenu {
                connection: Some(SpecConnection { channel: ch.id, name: ch.name, members: seq![] }),
                ..m
            },
            cmds: seq![
                DiscordCommand::JoinVoice { channel: ch.id },
                DiscordCommand::SubscribeVoice { channel: ch.id },
            ],
            controls: seq![],
        },
    }
}

/// Confirm the selected row of a loaded list.
pub open spec fn confirm(m: SpecMenu) -> SpecStep {
    match m.screen {
        Screen::Guilds { cursor, loading } => {
            if !loading && cursor < m.guilds.len() {
                let gid = m.guilds[cursor as int].id;
                SpecStep {
                    menu: SpecMenu {
                        channels: seq![],
                        screen: Screen::Channels { guild: gid, cursor: 0, loading: true },
                        ..m
                    },
                    cmds: seq![DiscordCommand::ListVoiceChannels { guild: gid }],
                    controls: seq![],
                }
            } else {
                idle(m)
            }
        },
        Screen::Channels { guild, cursor, loading } => {
            if loading || cursor >= channel_row_count(m) {
                idle(m)
            } else if is_connected(m) && cursor == 0 {
                then_close(leave(m))
            } else {
                let idx = if is_connected(m) { cursor - 1 } else { cursor as int };
                then_close(choose_channel(m, idx))
            }
        },
        Screen::Closed => idle(m),
    }
}

/// Go back one level: channels → servers (reloading if no servers are known),
/// servers → closed.
pub open spec fn back(m: SpecMenu) -> SpecStep {
    match m.screen {
        Screen::Channels { .. } => idle(
            SpecMenu { screen: Screen::Guilds { cursor: 0, loading: m.guilds.len() == 0 }, ..m },
        ),
        Screen::Guilds { .. } => close_menu(m),
        Screen::Closed => idle(m),
    }
}

/// The engine's reaction to one controller intent.
pub open spec fn spec_on_input(m: SpecMenu, intent: InputIntent) -> SpecStep {
    match intent {
        InputIntent::Chord => if is_open(m) {
            close_menu(m)
        } else {
            SpecStep {
                menu: SpecMenu { screen: Screen::Guilds { cursor: 0, loading: true }, ..m },
                cmds: seq![DiscordCommand::ListGuilds],
                controls: seq![InputControl::Grab],
            }
        },
        InputIntent::Dismiss => close_menu(m),
        InputIntent::Up => idle(move_cursor(m, -1)),
        InputIntent::Down => idle(move_cursor(m, 1)),
        InputIntent::Confirm | InputIntent::Right => confirm(m),
        InputIntent::Back | InputIntent::Left => back(m),
        InputIntent::AnchorCycle => if is_connected(m) {
            idle(SpecMenu { anchor: spec_next_anchor(m.anchor), ..m })
        } else {
            idle(m)
        },
    }
}

/// Index of the first member of `members` who is `user`, if any.
pub open spec fn first_member_index(members: Seq<SpecVoiceMember>, user: UserId) -> Option<int> {
    if exists|i: int| 0 <= i < members.len() && (#[trigger] members[i]).user == user {
        let i = choose|i: int|
            0 <= i < members.len() && (#[trigger] members[i]).user == user && (forall|j: int|
                0 <= j < i ==> (#[trigger] members[j]).user != user);
        Some(i)
    } else {
        None
    }
}

/// The roster with the speaking flag of the first entry for `user` set.
pub open spec fn set_speaking(members: Seq<SpecVoiceMember>, user: UserId, speaking: bool) -> Seq<
    SpecVoiceMember,
> {
    match first_member_index(members, user) {
        Some(i) => members.update(i, SpecVoiceMember { speaking, ..members[i] }),
        None => members,
    }
}

/// The display name for a joined channel: the name of the first listed voice
/// channel with that id, or empty.
pub open spec fn channel_name_for(channels: Seq<SpecVoiceChannel>, channel: ChannelId) -> Seq<char> {
    if exists|i: int| 0 <= i < channels.len() && (#[trigger] channels[i]).id == channel {
        let i = choose|i: int|
            0 <= i < channels.len() && (#[trigger] channels[i]).id == channel && (forall|j: int|
                0 <= j < i ==> (#[trigger] channels[j]).id != channel);
        channels[i].name
    } else {
        seq![]
    }
}

/// The engine's reaction to one Discord event (never commands, never input
/// capture changes).
pub open spec fn spec_on_discord(m: SpecMenu, ev: SpecDiscordEvent) -> SpecMenu {
    match ev {
        SpecDiscordEvent::Guilds(g) => {
            let screen = match m.screen {
                Screen::Guilds { cursor, loading } => Screen::Guilds {
                    cursor: if g.len() == 0 {
                        0
                    } else if cursor < g.len() {
                        cursor
                    } else {
                        (g.len() - 1) as usize
                    },
                    loading: false,
                },
                s => s,
            };
            SpecMenu { guilds: g, screen, ..m }
        },
        SpecDiscordEvent::VoiceChannels { guild, channels } => {
            let screen = match m.screen {
                Screen::Channels { guild: g, cursor, loading } => if g == guild {
                    Screen::Channels { guild: g, cursor, loading: false }
                } else {
                    m.screen
                },
                s => s,
            };
            SpecMenu { channels, screen, ..m }
        },
        SpecDiscordEvent::JoinedVoice { channel } => match m.connection {
            None => SpecMenu {
                connection: Some(
                    SpecConnection {
                        channel,
                        name: channel_name_for(m.channels, channel),
                        members: seq![],
                    },
                ),
                ..m
            },
            Some(c) => SpecMenu { connection: Some(SpecConnection { channel, ..c }), ..m },
        },
        SpecDiscordEvent::LeftVoice => SpecMenu { connection: None, ..m },
        SpecDiscordEvent::VoiceMembers { channel, members } => match m.connection {
            Some(c) if c.channel == channel => SpecMenu {
                connection: Some(SpecConnection { members, ..c }),
                ..m
            },
            _ => m,
        },
        SpecDiscordEvent::SpeakingChanged { channel, user, speaking } => match m.connection {
            Some(c) if c.channel == channel => SpecMenu {
                connection: Some(
                    SpecConnection { members: set_speaking(c.members, user, speaking), ..c },
                ),
                ..m
            },
            _ => m,
        },
        SpecDiscordEvent::Disconnected { .. } => SpecMenu { connection: None, ..m },
        SpecDiscordEvent::Connected { .. } => m,
    }
}

/// A new config only moves the anchor, and only when no overlay is live.
pub open spec fn spec_on_config(m: SpecMenu, anchor: Anchor) -> SpecMenu {
    if is_connected(m) {
        m
    } else {
        SpecMenu { anchor, ..m }
    }
}

// ---- scene ------------------------------------------------------------------

/// The selected index shown for a list of `n` rows with cursor `cursor`.
pub open spec fn clamp_sel(cursor: nat, n: nat) -> nat {
    if n == 0 {
        0
    } else if cursor < n {
        cursor
    } else {
        (n - 1) as nat
    }
}

/// A screen that is still waiting for its data.
pub open spec fn loading_view(title: Seq<char>) -> SpecMenuView {
    SpecMenuView {
        title,
        rows: seq![SpecRow { label: "Loading…"@, icon: None, state: RowState::Loading }],
        selected: 0,
    }
}

/// The row for one server.
pub open spec fn guild_row(g: SpecGuild) -> SpecRow {
    SpecRow { label: g.name, icon: g.icon, state: RowState::Normal }
}

/// The label of a voice channel: stage channels carry a microphone prefix.
pub open spec fn channel_label(ch: SpecVoiceChannel) -> Seq<char> {
    match ch.kind {
        VoiceKind::Stage => "🎙 "@ + ch.name,
        _ => ch.name,
    }
}

/// The row for one voice channel; the connected one is marked active.
pub open spec fn channel_row(m: SpecMenu, ch: SpecVoiceChannel) -> SpecRow {
    SpecRow {
        label: channel_label(ch),
        icon: None,
        state: match m.connection {
            Some(c) if c.channel == ch.id => RowState::Active,
            _ => RowState::Normal,
        },
    }
}

/// The synthetic row that leaves the connected channel.
pub open spec fn leave_row() -> SpecRow {
    SpecRow { label: "⏏ Leave voice"@, icon: None, state: RowState::Action }
}

/// All rows of the channel screen.
pub open spec fn channel_rows(m: SpecMenu) -> Seq<SpecRow> {
    (if is_connected(m) { seq![leave_row()] } else { seq![] }) + m.channels.map_values(
        |ch: SpecVoiceChannel| channel_row(m, ch),
    )
}

/// The menu layer for the current screen.
pub open spec fn spec_menu_view(m: SpecMenu) -> Option<SpecMenuView> {
    match m.screen {
        Screen::Closed => None,
        Screen::Guilds { cursor, loading } => if loading {
            Some(loading_view("Servers"@))
        } else {
            let rows = m.guilds.map_values(|g: SpecGuild| guild_row(g));
            Some(SpecMenuView { title: "Servers"@, rows, selected: clamp_sel(cursor as nat, rows.len()) })
        },
        Screen::Channels { cursor, loading, .. } => if loading {
            Some(loading_view("Voice Channels"@))
        } else {
            let rows = channel_rows(m);
            Some(
                SpecMenuView {
                    title: "Voice Channels"@,
                    rows,
                    selected: clamp_sel(cursor as nat, rows.len()),
                },
            )
        },
    }
}

/// The overlay layer: present exactly when connected, whatever the menu shows.
pub open spec fn spec_overlay(m: SpecMenu) -> Option<SpecOverlay> {
    match m.connection {
        Some(c) => Some(
            SpecOverlay {
                anchor: m.anchor,
                roster: SpecRoster { channel_name: c.name, members: c.members },
            },
        ),
        None => None,
    }
}

/// The complete frame for a state.
pub open spec fn spec_scene(m: SpecMenu) -> SpecScene {
    SpecScene { menu: spec_menu_view(m), overlay: spec_overlay(m) }
}

} // verus!
