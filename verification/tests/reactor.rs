//! The reactor's decisions, driven the way the live loop drives them: every
//! step is applied in order (capture, frame, anchor persistence, commands),
//! and each command's client reply is fed back.

use couchcord::reactor::{
    after_session, call_for, followup, next_backoff, voice_to_discord, Dispatcher, RpcCall, RpcReply,
    BACKOFF_MAX_MS, BACKOFF_START_MS,
};
use couchcord::{
    Anchor, ChannelId, ClientId, Config, DiscordCommand, DiscordEvent, DisconnectReason, Guild,
    GuildId, InputControl, InputIntent, MenuEngine, RpcError, Scene, Step, Theme, UserId,
    VoiceChannel, VoiceEvent, VoiceKind, VoiceMember,
};

#[test]
fn backoff_doubles_and_caps() {
    assert_eq!(next_backoff(BACKOFF_START_MS), 1000);
    assert_eq!(next_backoff(16_000), BACKOFF_MAX_MS);
    assert_eq!(next_backoff(BACKOFF_MAX_MS), BACKOFF_MAX_MS);
}

#[test]
fn backoff_reaches_the_cap_after_six_failures() {
    let mut d = BACKOFF_START_MS;
    let mut seen = Vec::new();
    for _ in 0..7 {
        d = next_backoff(d);
        seen.push(d);
    }
    assert_eq!(seen, vec![1000, 2000, 4000, 8000, 16000, 30000, 30000]);
    assert_eq!(next_backoff(u64::MAX), BACKOFF_MAX_MS, "saturates instead of overflowing");
}

#[test]
fn a_clean_session_end_restarts_the_backoff() {
    assert_eq!(after_session(true, 16_000), (BACKOFF_START_MS, 1000));
    assert_eq!(after_session(false, 16_000), (16_000, BACKOFF_MAX_MS));
    assert_eq!(after_session(false, BACKOFF_START_MS), (500, 1000));
}

fn cfg() -> Config {
    Config {
        client_id: ClientId(1514871580591919246),
        anchor: Anchor::TopRight,
        voice_kinds: vec![VoiceKind::Guild, VoiceKind::Stage],
        theme: Theme::default(),
    }
}

fn guild(id: u64, name: &str) -> Guild {
    Guild { id: GuildId(id), name: name.into(), icon: None }
}

fn vchan(id: u64, name: &str) -> VoiceChannel {
    VoiceChannel { id: ChannelId(id), name: name.into(), kind: VoiceKind::Guild }
}

/// What the live side records while applying steps.
struct Probe {
    guilds: Result<Vec<Guild>, String>,
    channels: Result<Vec<VoiceChannel>, String>,
    grabs: usize,
    grabbed: bool,
    selected: Vec<Option<ChannelId>>,
    stored: Vec<Anchor>,
    draws: usize,
    last: Option<Scene>,
}

impl Probe {
    fn new(guilds: Result<Vec<Guild>, String>, channels: Result<Vec<VoiceChannel>, String>) -> Self {
        Probe { guilds, channels, grabs: 0, grabbed: false, selected: vec![], stored: vec![], draws: 0, last: None }
    }

    /// Perform one client call, as the RPC client would.
    fn perform(&mut self, call: RpcCall) -> RpcReply {
        match call {
            RpcCall::FetchGuilds => RpcReply::Guilds(match &self.guilds {
                Ok(g) => Ok(g.iter().map(|g| guild(g.id.0, &g.name)).collect()),
                Err(e) => Err(RpcError::new(e)),
            }),
            RpcCall::FetchVoiceChannels { guild } => RpcReply::VoiceChannels {
                guild,
                result: match &self.channels {
                    Ok(c) => Ok(c.iter().map(|c| vchan(c.id.0, &c.name)).collect()),
                    Err(e) => Err(RpcError::new(e)),
                },
            },
            RpcCall::SelectVoice { target } => {
                self.selected.push(target);
                RpcReply::Selected { channel: target }
            }
            RpcCall::Subscribe { .. } | RpcCall::Nothing => RpcReply::Nothing,
        }
    }

    /// Apply a step and every follow-up it causes, in queue order.
    fn drive(&mut self, d: &mut Dispatcher, first: Step) {
        let mut queue = std::collections::VecDeque::new();
        queue.push_back(first);
        while let Some(step) = queue.pop_front() {
            for ctl in &step.controls {
                match ctl {
                    InputControl::Grab => {
                        self.grabs += 1;
                        self.grabbed = true;
                    }
                    InputControl::Release => self.grabbed = false,
                    _ => {}
                }
            }
            self.draws += 1;
            self.last = Some(step.scene.clone());
            if let Some(a) = d.anchor_to_store() {
                self.stored.push(a);
            }
            for cmd in step.cmds {
                let reply = self.perform(call_for(cmd));
                if let Some(next) = d.on_reply(reply) {
                    queue.push_back(next);
                }
            }
        }
    }

    fn titles(&self) -> (Option<String>, Vec<String>) {
        let s = self.last.clone().unwrap();
        let title = s.menu.as_ref().map(|m| m.title.clone());
        let rows = s.menu.map(|m| m.rows.iter().map(|r| r.label.clone()).collect()).unwrap_or_default();
        (title, rows)
    }
}

#[test]
fn full_flow_chord_browse_join_anchor() {
    let mut p = Probe::new(
        Ok(vec![guild(1, "Friends"), guild(2, "Work")]),
        Ok(vec![vchan(10, "General"), vchan(11, "Gaming")]),
    );
    let mut d = Dispatcher::new(MenuEngine::new(&cfg()));

    let step = d.on_input(InputIntent::Chord);
    p.drive(&mut d, step);
    assert_eq!(p.grabs, 1, "menu open grabbed input once");
    let (title, rows) = p.titles();
    assert_eq!(title.as_deref(), Some("Servers"));
    assert_eq!(rows, vec!["Friends", "Work"], "server list populated via rpc.guilds()");

    let step = d.on_input(InputIntent::Confirm);
    p.drive(&mut d, step);
    let (title, rows) = p.titles();
    assert_eq!(title.as_deref(), Some("Voice Channels"));
    assert_eq!(rows, vec!["General", "Gaming"]);

    let step = d.on_input(InputIntent::Down);
    p.drive(&mut d, step);
    let step = d.on_input(InputIntent::Confirm);
    p.drive(&mut d, step);
    assert_eq!(p.selected, vec![Some(ChannelId(11))], "join issued SELECT_VOICE_CHANNEL for the chosen channel");
    let s = p.last.clone().unwrap();
    assert!(s.menu.is_none(), "menu closes on join");
    assert_eq!(s.overlay.unwrap().roster.channel_name, "Gaming");
    assert!(!p.grabbed);

    let step = d.on_discord(DiscordEvent::VoiceMembers {
        channel: ChannelId(11),
        members: vec![VoiceMember {
            user: UserId(7),
            name: "cal".into(),
            avatar: None,
            speaking: false,
            muted: false,
            deafened: false,
        }],
    });
    p.drive(&mut d, step);
    let step = d.on_discord(DiscordEvent::SpeakingChanged { channel: ChannelId(11), user: UserId(7), speaking: true });
    p.drive(&mut d, step);
    let s = p.last.clone().unwrap();
    assert!(s.overlay.unwrap().roster.members[0].speaking, "speaking flag rendered");

    let before = d.anchor();
    let step = d.on_input(InputIntent::AnchorCycle);
    p.drive(&mut d, step);
    assert_ne!(d.anchor(), before, "anchor advanced");
    assert_eq!(p.stored, vec![Anchor::MidRight], "the new anchor reached the config store once");
}

#[test]
fn rpc_failure_surfaces_as_disconnect_not_a_hang() {
    let mut p = Probe::new(Err("down".into()), Err("down".into()));
    let mut d = Dispatcher::new(MenuEngine::new(&cfg()));
    let step = d.on_input(InputIntent::Chord);
    p.drive(&mut d, step);
    assert!(p.draws >= 1);
}

#[test]
fn failed_guild_fetch_is_a_closed_socket() {
    assert_eq!(
        followup(RpcReply::Guilds(Err(RpcError::new("down")))),
        Some(DiscordEvent::Disconnected { reason: DisconnectReason::SocketClosed })
    );
    assert_eq!(
        followup(RpcReply::VoiceChannels { guild: GuildId(1), result: Err(RpcError::new("down")) }),
        None,
        "a failed channel fetch is dropped"
    );
    assert_eq!(followup(RpcReply::Selected { channel: None }), Some(DiscordEvent::LeftVoice));
    assert_eq!(
        followup(RpcReply::Selected { channel: Some(ChannelId(3)) }),
        Some(DiscordEvent::JoinedVoice { channel: ChannelId(3) })
    );
    assert_eq!(followup(RpcReply::Nothing), None);
}

#[test]
fn every_command_has_its_call() {
    assert_eq!(call_for(DiscordCommand::ListGuilds), RpcCall::FetchGuilds);
    assert_eq!(
        call_for(DiscordCommand::ListVoiceChannels { guild: GuildId(4) }),
        RpcCall::FetchVoiceChannels { guild: GuildId(4) }
    );
    assert_eq!(
        call_for(DiscordCommand::JoinVoice { channel: ChannelId(5) }),
        RpcCall::SelectVoice { target: Some(ChannelId(5)) }
    );
    assert_eq!(call_for(DiscordCommand::LeaveVoice), RpcCall::SelectVoice { target: None });
    assert_eq!(
        call_for(DiscordCommand::SubscribeVoice { channel: ChannelId(5) }),
        RpcCall::Subscribe { channel: ChannelId(5) }
    );
    assert_eq!(call_for(DiscordCommand::UnsubscribeVoice { channel: ChannelId(5) }), RpcCall::Nothing);
    assert_eq!(call_for(DiscordCommand::Connect), RpcCall::Nothing);
}

#[test]
fn anchor_is_stored_once_per_change() {
    let mut d = Dispatcher::new(MenuEngine::new(&cfg()));
    assert_eq!(d.anchor_to_store(), None, "the starting anchor counts as stored");
    let mut p = Probe::new(Ok(vec![guild(1, "F")]), Ok(vec![vchan(10, "General")]));
    for i in [InputIntent::Chord, InputIntent::Confirm, InputIntent::Confirm] {
        let step = d.on_input(i);
        p.drive(&mut d, step);
    }
    d.on_input(InputIntent::AnchorCycle);
    assert_eq!(d.anchor_to_store(), Some(Anchor::MidRight));
    assert_eq!(d.anchor_to_store(), None);
}

#[test]
fn voice_items_feed_back_as_discord_events() {
    assert_eq!(
        voice_to_discord(VoiceEvent::SpeakingChanged { channel: ChannelId(1), user: UserId(2), speaking: false }),
        DiscordEvent::SpeakingChanged { channel: ChannelId(1), user: UserId(2), speaking: false }
    );
    assert_eq!(
        voice_to_discord(VoiceEvent::Members { channel: ChannelId(1), members: vec![] }),
        DiscordEvent::VoiceMembers { channel: ChannelId(1), members: vec![] }
    );
}
