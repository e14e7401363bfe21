//! The pure application brain.
//!
//! `MenuEngine` is a state machine with **zero IO**: it folds `InputIntent` /
//! `DiscordEvent` / `Config` into a new state and a `Step` (commands to issue,
//! input-capture controls, and a `Scene` to draw). Its behaviour is stated by
//! the model in [`spec`]; [`laws`] proves the properties that span calls.
//!
//! Layer independence: the menu screen and the voice overlay are tracked
//! separately, so the roster HUD renders whenever connected, regardless of
//! whether the menu is open.

pub mod laws;
pub mod spec;

use crate::config::Config;
use crate::ids::{ChannelId, GuildId, UserId};
use crate::model::{Anchor, Guild, SpecGuild, SpecVoiceMember, VoiceChannel, VoiceKind, VoiceMember};
use crate::msg::{
    channels_view, guilds_view, members_view, DiscordCommand, DiscordEvent, InputControl,
    InputIntent,
};
use crate::scene::{rows_view, MenuView, Overlay, Roster, Row, RowState, Scene};
use crate::menu::spec::{
    back, channel_row_count, close_menu, confirm, is_open, leave, move_cursor,
    spec_on_config, spec_on_discord, spec_on_input, spec_scene, Screen, SpecConnection, SpecMenu,
};
use vstd::prelude::*;
use vstd::string::*;

verus! {

/// The output of feeding one event into the engine.
#[derive(Debug, PartialEq, Eq)]
pub struct Step {
    /// Discord verbs to issue (order matters).
    pub cmds: Vec<DiscordCommand>,
    /// Input-capture transitions (grab on open, release on close).
    pub controls: Vec<InputControl>,
    /// The complete next frame.
    pub scene: Scene,
}

impl Default for Step {
    fn default() -> (s: Step)
        ensures
            s.cmds@.len() == 0,
            s.controls@.len() == 0,
            s.scene.menu is None,
            s.scene.overlay is None,
    {
        Step { cmds: Vec::new(), controls: Vec::new(), scene: Scene::empty() }
    }
}

/// The live voice connection (the overlay's source of truth), independent of
/// the menu screen.
struct Connection {
    channel: ChannelId,
    name: String,
    members: Vec<VoiceMember>,
}

impl View for Connection {
    type V = SpecConnection;

    closed spec fn view(&self) -> SpecConnection {
        SpecConnection { channel: self.channel, name: self.name@, members: members_view(self.members@) }
    }
}

/// The pure state machine.
pub struct MenuEngine {
    screen: Screen,
    guilds: Vec<Guild>,
    /// Voice channels of the guild currently being browsed.
    channels: Vec<VoiceChannel>,
    connection: Option<Connection>,
    anchor: Anchor,
}

spec fn connection_view(c: Option<Connection>) -> Option<SpecConnection> {
    match c {
        Some(c) => Some(c@),
        None => None,
    }
}

impl View for MenuEngine {
    type V = SpecMenu;

    closed spec fn view(&self) -> SpecMenu {
        SpecMenu {
            screen: self.screen,
            guilds: guilds_view(self.guilds@),
            channels: channels_view(self.channels@),
            connection: connection_view(self.connection),
            anchor: self.anchor,
        }
    }
}

fn clone_members(v: &Vec<VoiceMember>) -> (r: Vec<VoiceMember>)
    ensures
        members_view(r@) == members_view(v@),
{
    let r = v.clone();
    assert(r@ =~= v@) by {
        assert forall|i: int| 0 <= i < v@.len() implies r@[i] == v@[i] by {
            assert(vstd::pervasive::cloned::<VoiceMember>(v@[i], r@[i]));
        }
    }
    r
}

/// The roster with the speaking flag of the first entry for `user` set.
fn set_speaking(roster: Vec<VoiceMember>, user: UserId, speaking: bool) -> (r: Vec<VoiceMember>)
    ensures
        members_view(r@) == spec::set_speaking(members_view(roster@), user, speaking),
{
    let ghost ms = members_view(roster@);
    let mut members = roster;
    let mut i: usize = 0;
    while i < members.len()
        invariant
            i <= members.len(),
            ms == members_view(members@),
            ms == members_view(roster@),
            forall|j: int| 0 <= j < i ==> (#[trigger] ms[j]).user != user,
        decreases members.len() - i,
    {
        if members[i].user == user {
            let old_m = members[i].clone();
            let m = VoiceMember {
                user: old_m.user,
                name: old_m.name,
                avatar: old_m.avatar,
                speaking,
                muted: old_m.muted,
                deafened: old_m.deafened,
            };
            let ghost before = members@;
            members.set(i, m);
            proof {
                let k = i as int;
                assert(ms[k].user == user);
                let w = choose|w: int|
                    0 <= w < ms.len() && (#[trigger] ms[w]).user == user && (forall|j: int|
                        0 <= j < w ==> (#[trigger] ms[j]).user != user);
                assert(0 <= k < ms.len() && ms[k].user == user && (forall|j: int|
                    0 <= j < k ==> (#[trigger] ms[j]).user != user));
                if w < k {
                    assert(ms[w].user != user);
                } else if w > k {
                    assert(ms[k].user != user);
                }
                assert(spec::first_member_index(ms, user) == Some(k));
                assert(members_view(members@) =~= ms.update(k, SpecVoiceMember { speaking, ..ms[k] }));
            }
            return members;
        }
        i = i + 1;
    }
    members
}

/// One step of a wrapping cursor, computed from the reduced cursor.
proof fn lemma_cursor_step(cursor: int, len: int, forward: bool)
    requires
        len > 0,
        cursor >= 0,
    ensures
        ({
            let c = cursor % len;
            let next = if forward {
                if c + 1 == len { 0 } else { c + 1 }
            } else {
                if c == 0 { len - 1 } else { c - 1 }
            };
            next == (cursor + if forward { 1int } else { -1int }) % len
        }),
{
    let c = cursor % len;
    let q = cursor / len;
    vstd::arithmetic::div_mod::lemma_fundamental_div_mod(cursor, len);
    assert(0 <= c < len) by {
        vstd::arithmetic::div_mod::lemma_mod_bound(cursor, len);
    }
    vstd::arithmetic::mul::lemma_mul_is_commutative(len, q);
    if forward {
        if c + 1 == len {
            assert(cursor + 1 == (q + 1) * len + 0) by (nonlinear_arith)
                requires
                    cursor == len * q + c,
                    c + 1 == len,
            ;
            vstd::arithmetic::div_mod::lemma_fundamental_div_mod_converse(cursor + 1, len, q + 1, 0);
        } else {
            vstd::arithmetic::div_mod::lemma_fundamental_div_mod_converse(cursor + 1, len, q, c + 1);
        }
    } else {
        if c == 0 {
            assert(cursor - 1 == (q - 1) * len + (len - 1)) by (nonlinear_arith)
                requires
                    cursor == len * q + c,
                    c == 0,
            ;
            vstd::arithmetic::div_mod::lemma_fundamental_div_mod_converse(cursor - 1, len, q - 1, len - 1);
        } else {
            vstd::arithmetic::div_mod::lemma_fundamental_div_mod_converse(cursor - 1, len, q, c - 1);
        }
    }
}

fn loading_view(title: &str) -> (v: MenuView)
    ensures
        v@ == spec::loading_view(title@),
{
    let mut rows = Vec::new();
    rows.push(Row { label: String::from_str("Loading…"), icon: None, state: RowState::Loading });
    let v = MenuView { title: title.to_owned(), rows, selected: 0 };
    assert(v@.rows =~= spec::loading_view(title@).rows);
    v
}

fn clamp_sel(cursor: usize, n: usize) -> (s: usize)
    ensures
        s as nat == spec::clamp_sel(cursor as nat, n as nat),
{
    if n == 0 {
        0
    } else if cursor < n {
        cursor
    } else {
        n - 1
    }
}

impl MenuEngine {
    /// A closed menu with no connection, anchored where the config says.
    pub fn new(cfg: &Config) -> (e: Self)
        ensures
            e@.screen == Screen::Closed,
            e@.guilds.len() == 0,
            e@.channels.len() == 0,
            e@.connection is None,
            e@.anchor == cfg.anchor,
    {
        MenuEngine {
            screen: Screen::Closed,
            guilds: Vec::new(),
            channels: Vec::new(),
            connection: None,
            anchor: cfg.anchor,
        }
    }

    /// Is the menu layer currently visible?
    pub fn menu_open(&self) -> (b: bool)
        ensures
            b == is_open(self@),
    {
        !matches!(self.screen, Screen::Closed)
    }

    /// The current overlay anchor.
    pub fn anchor(&self) -> (a: Anchor)
        ensures
            a == self@.anchor,
    {
        self.anchor
    }

    // ---- inputs -----------------------------------------------------------

    /// Feed one controller intent.
    pub fn on_input(&mut self, intent: InputIntent) -> (step: Step)
        ensures
            final(self)@ == spec_on_input(old(self)@, intent).menu,
            step.cmds@ == spec_on_input(old(self)@, intent).cmds,
            step.controls@ == spec_on_input(old(self)@, intent).controls,
            step.scene@ == spec_scene(final(self)@),
    {
        let mut cmds: Vec<DiscordCommand> = Vec::new();
        let mut controls: Vec<InputControl> = Vec::new();
        match intent {
            InputIntent::Chord => {
                if matches!(self.screen, Screen::Closed) {
                    self.screen = Screen::Guilds { cursor: 0, loading: true };
                    controls.push(InputControl::Grab);
                    cmds.push(DiscordCommand::ListGuilds);
                } else {
                    self.close_menu(&mut controls);
                }
            },
            InputIntent::Dismiss => self.close_menu(&mut controls),
            InputIntent::Up => self.move_cursor(false),
            InputIntent::Down => self.move_cursor(true),
            InputIntent::Confirm => self.confirm(&mut cmds, &mut controls),
            InputIntent::Back => self.back(&mut controls),
            InputIntent::Left => self.back(&mut controls),
            InputIntent::Right => self.confirm(&mut cmds, &mut controls),
            InputIntent::AnchorCycle => {
                if self.connection.is_some() {
                    self.anchor = self.anchor.next();
                }
            },
        }
        assert(cmds@ =~= spec_on_input(old(self)@, intent).cmds);
        assert(controls@ =~= spec_on_input(old(self)@, intent).controls);
        self.step(cmds, controls)
    }

    fn close_menu(&mut self, controls: &mut Vec<InputControl>)
        ensures
            final(self)@ == close_menu(old(self)@).menu,
            final(controls)@ == old(controls)@ + close_menu(old(self)@).controls,
    {
        if !matches!(self.screen, Screen::Closed) {
            self.screen = Screen::Closed;
            controls.push(InputControl::Release);
        }
        assert(final(controls)@ =~= old(controls)@ + close_menu(old(self)@).controls);
    }

    fn channel_row_count(&self) -> (n: u128)
        ensures
            n as nat == channel_row_count(self@),
    {
        proof {
            assert(self.channels@.len() == channels_view(self.channels@).len());
        }
        if self.connection.is_some() {
            self.channels.len() as u128 + 1
        } else {
            self.channels.len() as u128
        }
    }

    fn move_cursor(&mut self, forward: bool)
        ensures
            final(self)@ == move_cursor(old(self)@, if forward { 1int } else { -1int }),
    {
        let (cursor, len) = match self.screen {
            Screen::Guilds { cursor, .. } => (cursor, self.guilds.len() as u128),
            Screen::Channels { cursor, .. } => (cursor, self.channel_row_count()),
            Screen::Closed => {
                return;
            },
        };
        if len == 0 {
            return;
        }
        let c = (cursor as u128) % len;
        let next = if forward {
            if c + 1 == len {
                0
            } else {
                c + 1
            }
        } else {
            if c == 0 {
                len - 1
            } else {
                c - 1
            }
        };
        proof {
            lemma_cursor_step(cursor as int, len as int, forward);
            assert(self.guilds@.len() == guilds_view(self.guilds@).len());
        }
        let next = next as usize;
        match &mut self.screen {
            Screen::Guilds { cursor, .. } => *cursor = next,
            Screen::Channels { cursor, .. } => *cursor = next,
            Screen::Closed => {},
        }
    }

    fn leave(&mut self, cmds: &mut Vec<DiscordCommand>)
        ensures
            final(self)@ == leave(old(self)@).menu,
            final(cmds)@ == old(cmds)@ + leave(old(self)@).cmds,
    {
        if let Some(c) = self.connection.take() {
            cmds.push(DiscordCommand::LeaveVoice);
            cmds.push(DiscordCommand::UnsubscribeVoice { channel: c.channel });
        }
        assert(final(cmds)@ =~= old(cmds)@ + leave(old(self)@).cmds);
    }

    fn confirm(&mut self, cmds: &mut Vec<DiscordCommand>, controls: &mut Vec<InputControl>)
        ensures
            final(self)@ == confirm(old(self)@).menu,
            final(cmds)@ == old(cmds)@ + confirm(old(self)@).cmds,
            final(controls)@ == old(controls)@ + confirm(old(self)@).controls,
    {
        assert(self.guilds@.len() == guilds_view(self.guilds@).len());
        match self.screen {
            Screen::Guilds { cursor, loading: false } => {
                if cursor < self.guilds.len() {
                    let guild = self.guilds[cursor].id;
                    assert(guilds_view(self.guilds@)[cursor as int].id == guild);
                    self.channels = Vec::new();
                    self.screen = Screen::Channels { guild, cursor: 0, loading: true };
                    cmds.push(DiscordCommand::ListVoiceChannels { guild });
                    assert(channels_view(self.channels@) =~= seq![]);
                }
            },
            Screen::Channels { guild, cursor, loading: false } => {
                let n = self.channel_row_count();
                if (cursor as u128) < n {
                    if self.connection.is_some() && cursor == 0 {
                        self.leave(cmds);
                        self.close_menu(controls);
                    } else {
                        let idx = if self.connection.is_some() {
                            cursor - 1
                        } else {
                            cursor
                        };
                        let ch = self.channels[idx].clone();
                        let same = match &self.connection {
                            Some(c) => c.channel == ch.id,
                            None => false,
                        };
                        if same {
                            self.leave(cmds);
                        } else {
                            cmds.push(DiscordCommand::JoinVoice { channel: ch.id });
                            cmds.push(DiscordCommand::SubscribeVoice { channel: ch.id });
                            let conn = Connection { channel: ch.id, name: ch.name, members: Vec::new() };
                            assert(members_view(conn.members@) =~= seq![]);
                            self.connection = Some(conn);
                        }
                        self.close_menu(controls);
                    }
                }
            },
            _ => {},
        }
    }

    fn back(&mut self, controls: &mut Vec<InputControl>)
        ensures
            final(self)@ == back(old(self)@).menu,
            final(controls)@ == old(controls)@ + back(old(self)@).controls,
    {
        match self.screen {
            Screen::Channels { .. } => {
                self.screen = Screen::Guilds { cursor: 0, loading: self.guilds.len() == 0 };
                assert(final(controls)@ =~= old(controls)@);
            },
            Screen::Guilds { .. } => self.close_menu(controls),
            Screen::Closed => {
                assert(final(controls)@ =~= old(controls)@);
            },
        }
    }

    // ---- discord events ---------------------------------------------------

    /// Feed one Discord event. Never issues commands or changes input capture.
    pub fn on_discord(&mut self, ev: DiscordEvent) -> (step: Step)
        ensures
            final(self)@ == spec_on_discord(old(self)@, ev@),
            step.cmds@.len() == 0,
            step.controls@.len() == 0,
            step.scene@ == spec_scene(final(self)@),
    {
        match ev {
            DiscordEvent::Guilds(g) => {
                self.guilds = g;
                let n = self.guilds.len();
                assert(n == guilds_view(self.guilds@).len());
                match self.screen {
                    Screen::Guilds { cursor, loading } => {
                        let c = if n == 0 {
                            0
                        } else if cursor < n {
                            cursor
                        } else {
                            n - 1
                        };
                        self.screen = Screen::Guilds { cursor: c, loading: false };
                    },
                    _ => {},
                }
            },
            DiscordEvent::VoiceChannels { guild, channels } => {
                match self.screen {
                    Screen::Channels { guild: g, cursor, loading } => {
                        if g == guild {
                            self.screen = Screen::Channels { guild: g, cursor, loading: false };
                        }
                    },
                    _ => {},
                }
                self.channels = channels;
            },
            DiscordEvent::JoinedVoice { channel } => {
                match self.connection.take() {
                    None => {
                        let name = self.channel_name_for(channel);
                        let conn = Connection { channel, name, members: Vec::new() };
                        assert(members_view(conn.members@) =~= seq![]);
                        self.connection = Some(conn);
                    },
                    Some(c) => {
                        self.connection = Some(
                            Connection { channel, name: c.name, members: c.members },
                        );
                    },
                }
            },
            DiscordEvent::LeftVoice => self.connection = None,
            DiscordEvent::VoiceMembers { channel, members } => {
                match self.connection.take() {
                    Some(c) => {
                        if c.channel == channel {
                            self.connection = Some(Connection { channel: c.channel, name: c.name, members });
                        } else {
                            self.connection = Some(c);
                        }
                    },
                    None => {},
                }
            },
            DiscordEvent::SpeakingChanged { channel, user, speaking } => {
                match self.connection.take() {
                    Some(c) => {
                        if c.channel == channel {
                            let members = set_speaking(c.members, user, speaking);
                            self.connection = Some(Connection { channel: c.channel, name: c.name, members });
                        } else {
                            self.connection = Some(c);
                        }
                    },
                    None => {},
                }
            },
            DiscordEvent::Disconnected { reason } => {
                self.connection = None;
            },
            DiscordEvent::Connected { .. } => {},
        }
        self.step(Vec::new(), Vec::new())
    }

    /// The name of the first listed voice channel with id `channel`, or empty.
    fn channel_name_for(&self, channel: ChannelId) -> (name: String)
        ensures
            name@ == spec::channel_name_for(channels_view(self.channels@), channel),
    {
        let ghost cs = channels_view(self.channels@);
        let mut i: usize = 0;
        while i < self.channels.len()
            invariant
                i <= self.channels.len(),
                cs == channels_view(self.channels@),
                forall|j: int| 0 <= j < i ==> (#[trigger] cs[j]).id != channel,
            decreases self.channels.len() - i,
        {
            if self.channels[i].id == channel {
                let name = self.channels[i].name.clone();
                proof {
                    let k = i as int;
                    assert(cs[k].id == channel);
                    let w = choose|w: int|
                        0 <= w < cs.len() && (#[trigger] cs[w]).id == channel && (forall|j: int|
                            0 <= j < w ==> (#[trigger] cs[j]).id != channel);
                    assert(0 <= k < cs.len() && cs[k].id == channel && (forall|j: int|
                        0 <= j < k ==> (#[trigger] cs[j]).id != channel));
                    if w < k {
                        assert(cs[w].id != channel);
                    } else if w > k {
                        assert(cs[k].id != channel);
                    }
                }
                return name;
            }
            i = i + 1;
        }
        String::new()
    }

    // ---- config -----------------------------------------------------------

    /// Adopt a new config: only the default anchor, and only while no overlay
    /// is live (a live HUD is not moved under the user).
    pub fn on_config(&mut self, cfg: &Config) -> (step: Step)
        ensures
            final(self)@ == spec_on_config(old(self)@, cfg.anchor),
            step.cmds@.len() == 0,
            step.controls@.len() == 0,
            step.scene@ == spec_scene(final(self)@),
    {
        if self.connection.is_none() {
            self.anchor = cfg.anchor;
        }
        self.step(Vec::new(), Vec::new())
    }

    // ---- scene assembly ---------------------------------------------------

    fn step(&self, cmds: Vec<DiscordCommand>, controls: Vec<InputControl>) -> (s: Step)
        ensures
            s.cmds == cmds,
            s.controls == controls,
            s.scene@ == spec_scene(self@),
    {
        Step { cmds, controls, scene: self.scene() }
    }

    /// The complete frame for the current state.
    pub fn scene(&self) -> (s: Scene)
        ensures
            s@ == spec_scene(self@),
    {
        Scene { menu: self.menu_view(), overlay: self.overlay() }
    }

    fn overlay(&self) -> (o: Option<Overlay>)
        ensures
            match o {
                Some(ov) => spec::spec_overlay(self@) == Some(ov@),
                None => spec::spec_overlay(self@) is None,
            },
    {
        match &self.connection {
            Some(c) => Some(
                Overlay {
                    anchor: self.anchor,
                    roster: Roster { channel_name: c.name.clone(), members: clone_members(&c.members) },
                },
            ),
            None => None,
        }
    }

    fn guild_rows(&self) -> (rows: Vec<Row>)
        ensures
            rows_view(rows@) == guilds_view(self.guilds@).map_values(|g: SpecGuild| spec::guild_row(g)),
    {
        let ghost gs = guilds_view(self.guilds@);
        let mut rows: Vec<Row> = Vec::new();
        let mut i: usize = 0;
        while i < self.guilds.len()
            invariant
                i <= self.guilds.len(),
                gs == guilds_view(self.guilds@),
                rows@.len() == i,
                forall|j: int| 0 <= j < i ==> (#[trigger] rows@[j])@ == spec::guild_row(gs[j]),
            decreases self.guilds.len() - i,
        {
            let g = &self.guilds[i];
            rows.push(Row { label: g.name.clone(), icon: g.icon.clone(), state: RowState::Normal });
            i = i + 1;
        }
        assert(rows_view(rows@) =~= gs.map_values(|g: SpecGuild| spec::guild_row(g)));
        rows
    }

    fn channel_rows(&self) -> (rows: Vec<Row>)
        ensures
            rows_view(rows@) == spec::channel_rows(self@),
    {
        let ghost m = self@;
        let ghost cs = channels_view(self.channels@);
        let mut rows: Vec<Row> = Vec::new();
        let connected = self.connection.is_some();
        if connected {
            rows.push(Row { label: String::from_str("⏏ Leave voice"), icon: None, state: RowState::Action });
        }
        let ghost base: int = if connected { 1 } else { 0 };
        let mut i: usize = 0;
        while i < self.channels.len()
            invariant
                i <= self.channels.len(),
                m == self@,
                cs == channels_view(self.channels@),
                connected == (self.connection is Some),
                base == if connected { 1int } else { 0int },
                rows@.len() == base + i,
                connected ==> rows@[0]@ == spec::leave_row(),
                forall|j: int| 0 <= j < i ==> (#[trigger] rows@[base + j])@ == spec::channel_row(m, cs[j]),
            decreases self.channels.len() - i,
        {
            let ch = &self.channels[i];
            let label = match ch.kind {
                VoiceKind::Stage => {
                    let mut l = String::from_str("🎙 ");
                    l.append(ch.name.as_str());
                    l
                },
                _ => ch.name.clone(),
            };
            let active = match &self.connection {
                Some(c) => c.channel == ch.id,
                None => false,
            };
            rows.push(
                Row {
                    label,
                    icon: None,
                    state: if active {
                        RowState::Active
                    } else {
                        RowState::Normal
                    },
                },
            );
            proof {
                assert(cs[i as int] == ch@);
                assert(rows@[base + i]@ == spec::channel_row(m, cs[i as int]));
            }
            i = i + 1;
        }
        proof {
            let expect = spec::channel_rows(m);
            assert(rows_view(rows@) =~= expect) by {
                assert(rows_view(rows@).len() == expect.len());
                assert forall|j: int| 0 <= j < expect.len() implies rows_view(rows@)[j] == expect[j] by {
                    if connected && j == 0 {
                    } else {
                        let k = j - base;
                        assert(rows@[base + k]@ == spec::channel_row(m, cs[k]));
                    }
                }
            }
        }
        rows
    }

    fn menu_view(&self) -> (v: Option<MenuView>)
        ensures
            match v {
                Some(mv) => spec::spec_menu_view(self@) == Some(mv@),
                None => spec::spec_menu_view(self@) is None,
            },
    {
        match self.screen {
            Screen::Closed => None,
            Screen::Guilds { cursor, loading } => {
                if loading {
                    return Some(loading_view("Servers"));
                }
                let rows = self.guild_rows();
                let n = rows.len();
                Some(MenuView { title: String::from_str("Servers"), selected: clamp_sel(cursor, n), rows })
            },
            Screen::Channels { cursor, loading, .. } => {
                if loading {
                    return Some(loading_view("Voice Channels"));
                }
                let rows = self.channel_rows();
                let n = rows.len();
                Some(MenuView { title: String::from_str("Voice Channels"), selected: clamp_sel(cursor, n), rows })
            },
        }
    }
}

} // verus!
