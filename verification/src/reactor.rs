//! The reactor's decisions: how the menu engine is driven against the Discord
//! client, the input source, the renderer and the config store.
//!
//! The reactor owns no domain knowledge; it only wires domains. Each step the
//! engine produces is applied in order: input capture, the frame, a changed
//! anchor is persisted, then every command runs and the event it yields (if
//! any) is fed back as a new step. The side that performs the calls (async
//! I/O) asks [`call_for`] what to do for a command and hands the outcome back
//! to [`Dispatcher::on_reply`]; everything decided lives here.

use crate::error::RpcError;
use crate::ids::{ChannelId, GuildId};
use crate::menu::spec::{spec_on_discord, spec_on_input, spec_scene, SpecMenu};
use crate::menu::{MenuEngine, Step};
use crate::model::{spec_next_anchor, Anchor, Guild, VoiceChannel};
use crate::msg::{
    channels_view, guilds_view, DiscordCommand, DiscordEvent, DisconnectReason, InputIntent,
    SpecDiscordEvent, SpecVoiceEvent, VoiceEvent,
};
use vstd::prelude::*;

verus! {

/// First reconnect delay, in milliseconds.
pub const BACKOFF_START_MS: u64 = 500;

/// Longest reconnect delay, in milliseconds.
pub const BACKOFF_MAX_MS: u64 = 30000;

/// The delay after `current`: doubled, never above the cap.
pub open spec fn spec_next_backoff(current: int) -> int {
    if 2 * current < BACKOFF_MAX_MS as int {
        2 * current
    } else {
        BACKOFF_MAX_MS as int
    }
}

/// The next reconnect delay: twice the current one (saturating), capped at
/// [`BACKOFF_MAX_MS`].
pub fn next_backoff(current_ms: u64) -> (next: u64)
    ensures
        next == spec_next_backoff(current_ms as int),
{
    if current_ms < BACKOFF_MAX_MS / 2 {
        current_ms * 2
    } else {
        BACKOFF_MAX_MS
    }
}

/// After a session ends: how long to wait before reconnecting, and the delay
/// to use after that. A session that ended cleanly (the input stream closed)
/// starts the backoff over; a failed one waits the current delay.
pub fn after_session(clean: bool, delay_ms: u64) -> (r: (u64, u64))
    ensures
        r.0 == (if clean {
            BACKOFF_START_MS
        } else {
            delay_ms
        }),
        r.1 == spec_next_backoff(r.0 as int),
{
    let wait = if clean {
        BACKOFF_START_MS
    } else {
        delay_ms
    };
    (wait, next_backoff(wait))
}

/// The delay never exceeds the cap, never shrinks while below it, and stays
/// at the cap once it gets there.
pub proof fn lemma_backoff_bounded(current: u64)
    ensures
        spec_next_backoff(current as int) <= BACKOFF_MAX_MS,
        current <= BACKOFF_MAX_MS ==> current <= spec_next_backoff(current as int),
        spec_next_backoff(BACKOFF_MAX_MS as int) == BACKOFF_MAX_MS,
{
}

/// The delay after `k` failures in a row, starting from `start`.
pub open spec fn backoff_after(start: int, k: nat) -> int
    decreases k,
{
    if k == 0 {
        start
    } else {
        spec_next_backoff(backoff_after(start, (k - 1) as nat))
    }
}

/// Starting from the first delay, six failures in a row reach the cap, and
/// every later delay stays there.
pub proof fn lemma_backoff_reaches_cap(k: nat)
    requires
        k >= 6,
    ensures
        backoff_after(BACKOFF_START_MS as int, k) == BACKOFF_MAX_MS,
    decreases k,
{
    reveal_with_fuel(backoff_after, 7);
    if k > 6 {
        lemma_backoff_reaches_cap((k - 1) as nat);
    }
}

/// The client call that performs one Discord command.
#[derive(Clone, Copy, Debug, PartialEq, Eq, Structural)]
pub enum RpcCall {
    /// `GET_GUILDS`.
    FetchGuilds,
    /// `GET_CHANNELS` of one guild.
    FetchVoiceChannels { guild: GuildId },
    /// `SELECT_VOICE_CHANNEL`; `None` leaves voice.
    SelectVoice { target: Option<ChannelId> },
    /// Start the per-channel voice subscription and drain it into the loop.
    Subscribe { channel: ChannelId },
    /// Nothing to call.
    Nothing,
}

/// Which client call a command needs.
pub open spec fn spec_call_for(cmd: DiscordCommand) -> RpcCall {
    match cmd {
        DiscordCommand::ListGuilds => RpcCall::FetchGuilds,
        DiscordCommand::ListVoiceChannels { guild } => RpcCall::FetchVoiceChannels { guild },
        DiscordCommand::JoinVoice { channel } => RpcCall::SelectVoice { target: Some(channel) },
        DiscordCommand::LeaveVoice => RpcCall::SelectVoice { target: None },
        DiscordCommand::SubscribeVoice { channel } => RpcCall::Subscribe { channel },
        DiscordCommand::UnsubscribeVoice { .. } => RpcCall::Nothing,
        DiscordCommand::Connect => RpcCall::Nothing,
    }
}

/// The client call that executes `cmd`.
pub fn call_for(cmd: DiscordCommand) -> (call: RpcCall)
    ensures
        call == spec_call_for(cmd),
{
    match cmd {
        DiscordCommand::ListGuilds => RpcCall::FetchGuilds,
        DiscordCommand::ListVoiceChannels { guild } => RpcCall::FetchVoiceChannels { guild },
        DiscordCommand::JoinVoice { channel } => RpcCall::SelectVoice { target: Some(channel) },
        DiscordCommand::LeaveVoice => RpcCall::SelectVoice { target: None },
        DiscordCommand::SubscribeVoice { channel } => RpcCall::Subscribe { channel },
        DiscordCommand::UnsubscribeVoice { .. } => RpcCall::Nothing,
        DiscordCommand::Connect => RpcCall::Nothing,
    }
}

/// What a client call came back with.
pub enum RpcReply {
    /// The answer to [`RpcCall::FetchGuilds`].
    Guilds(Result<Vec<Guild>, RpcError>),
    /// The answer to [`RpcCall::FetchVoiceChannels`].
    VoiceChannels { guild: GuildId, result: Result<Vec<VoiceChannel>, RpcError> },
    /// `SELECT_VOICE_CHANNEL` was sent for `channel` (its outcome is not
    /// waited on: Discord reports the real voice state separately).
    Selected { channel: Option<ChannelId> },
    /// No call was made, or the call yields no event (a subscription).
    Nothing,
}

/// The domain event a reply yields, if any: fetched servers (a failed fetch
/// means the socket is gone), fetched voice channels (a failed fetch is
/// dropped), and the joined / left voice channel.
pub open spec fn spec_followup(reply: RpcReply) -> Option<SpecDiscordEvent> {
    match reply {
        RpcReply::Guilds(Ok(g)) => Some(SpecDiscordEvent::Guilds(guilds_view(g@))),
        RpcReply::Guilds(Err(_)) => Some(
            SpecDiscordEvent::Disconnected { reason: DisconnectReason::SocketClosed },
        ),
        RpcReply::VoiceChannels { guild, result: Ok(c) } => Some(
            SpecDiscordEvent::VoiceChannels { guild, channels: channels_view(c@) },
        ),
        RpcReply::VoiceChannels { result: Err(_), .. } => None,
        RpcReply::Selected { channel: Some(channel) } => Some(
            SpecDiscordEvent::JoinedVoice { channel },
        ),
        RpcReply::Selected { channel: None } => Some(SpecDiscordEvent::LeftVoice),
        RpcReply::Nothing => None,
    }
}

/// The domain event that a client reply yields.
pub fn followup(reply: RpcReply) -> (ev: Option<DiscordEvent>)
    ensures
        match ev {
            Some(e) => spec_followup(reply) == Some(e@),
            None => spec_followup(reply) is None,
        },
{
    match reply {
        RpcReply::Guilds(Ok(g)) => Some(DiscordEvent::Guilds(g)),
        RpcReply::Guilds(Err(_)) => Some(
            DiscordEvent::Disconnected { reason: DisconnectReason::SocketClosed },
        ),
        RpcReply::VoiceChannels { guild, result: Ok(channels) } => Some(
            DiscordEvent::VoiceChannels { guild, channels },
        ),
        RpcReply::VoiceChannels { result: Err(_), .. } => None,
        RpcReply::Selected { channel: Some(channel) } => Some(DiscordEvent::JoinedVoice { channel }),
        RpcReply::Selected { channel: None } => Some(DiscordEvent::LeftVoice),
        RpcReply::Nothing => None,
    }
}

/// A voice-subscription item as the Discord event the engine consumes.
pub open spec fn spec_voice_to_discord(ev: SpecVoiceEvent) -> SpecDiscordEvent {
    match ev {
        SpecVoiceEvent::Members { channel, members } => SpecDiscordEvent::VoiceMembers {
            channel,
            members,
        },
        SpecVoiceEvent::SpeakingChanged { channel, user, speaking } =>
            SpecDiscordEvent::SpeakingChanged { channel, user, speaking },
    }
}

/// Turn one voice-subscription item into the event fed back into the loop.
pub fn voice_to_discord(ev: VoiceEvent) -> (de: DiscordEvent)
    ensures
        de@ == spec_voice_to_discord(ev@),
{
    match ev {
        VoiceEvent::Members { channel, members } => DiscordEvent::VoiceMembers { channel, members },
        VoiceEvent::SpeakingChanged { channel, user, speaking } => DiscordEvent::SpeakingChanged {
            channel,
            user,
            speaking,
        },
    }
}

/// The reactor's state as values: the engine, and the anchor last handed to
/// the config store.
pub struct SpecDispatcher {
    pub menu: SpecMenu,
    pub stored_anchor: Anchor,
}

/// What persisting does: the anchor to hand to the store if it moved since it
/// was last stored, and the state in which it counts as stored.
pub open spec fn spec_anchor_to_store(d: SpecDispatcher) -> (SpecDispatcher, Option<Anchor>) {
    (
        SpecDispatcher { menu: d.menu, stored_anchor: d.menu.anchor },
        if d.menu.anchor != d.stored_anchor {
            Some(d.menu.anchor)
        } else {
            None
        },
    )
}

/// Drives one [`MenuEngine`] and remembers which anchor was last persisted.
pub struct Dispatcher {
    engine: MenuEngine,
    last_anchor: Anchor,
}

impl View for Dispatcher {
    type V = SpecDispatcher;

    closed spec fn view(&self) -> SpecDispatcher {
        SpecDispatcher { menu: self.engine@, stored_anchor: self.last_anchor }
    }
}

impl Dispatcher {
    /// Wrap an engine; its current anchor counts as already stored.
    pub fn new(engine: MenuEngine) -> (d: Self)
        ensures
            d@.menu == engine@,
            d@.stored_anchor == engine@.anchor,
    {
        let last_anchor = engine.anchor();
        Dispatcher { engine, last_anchor }
    }

    /// Feed a controller intent; the caller applies the step.
    pub fn on_input(&mut self, intent: InputIntent) -> (step: Step)
        ensures
            final(self)@.menu == spec_on_input(old(self)@.menu, intent).menu,
            final(self)@.stored_anchor == old(self)@.stored_anchor,
            step.cmds@ == spec_on_input(old(self)@.menu, intent).cmds,
            step.controls@ == spec_on_input(old(self)@.menu, intent).controls,
            step.scene@ == spec_scene(final(self)@.menu),
    {
        self.engine.on_input(intent)
    }

    /// Feed a Discord event; the caller applies the step.
    pub fn on_discord(&mut self, ev: DiscordEvent) -> (step: Step)
        ensures
            final(self)@.menu == spec_on_discord(old(self)@.menu, ev@),
            final(self)@.stored_anchor == old(self)@.stored_anchor,
            step.cmds@.len() == 0,
            step.controls@.len() == 0,
            step.scene@ == spec_scene(final(self)@.menu),
    {
        self.engine.on_discord(ev)
    }

    /// The anchor to persist now, if it changed since it was last persisted;
    /// from here on it counts as stored.
    pub fn anchor_to_store(&mut self) -> (a: Option<Anchor>)
        ensures
            (final(self)@, a) == spec_anchor_to_store(old(self)@),
    {
        let a = self.engine.anchor();
        if a != self.last_anchor {
            self.last_anchor = a;
            Some(a)
        } else {
            None
        }
    }

    /// Feed the outcome of one command's client call: the step for the event
    /// it yields, or `None` when it yields none.
    pub fn on_reply(&mut self, reply: RpcReply) -> (step: Option<Step>)
        ensures
            final(self)@.stored_anchor == old(self)@.stored_anchor,
            match spec_followup(reply) {
                Some(ev) => {
                    &&& final(self)@.menu == spec_on_discord(old(self)@.menu, ev)
                    &&& step matches Some(s) && s.cmds@.len() == 0 && s.controls@.len() == 0
                        && s.scene@ == spec_scene(final(self)@.menu)
                },
                None => final(self)@.menu == old(self)@.menu && step is None,
            },
    {
        match followup(reply) {
            Some(ev) => Some(self.engine.on_discord(ev)),
            None => None,
        }
    }

    /// The engine's current anchor.
    pub fn anchor(&self) -> (a: Anchor)
        ensures
            a == self@.menu.anchor,
    {
        self.engine.anchor()
    }
}

/// Persisting is idempotent: right after the anchor was handed to the store,
/// nothing is left to persist until the engine's anchor moves again.
pub proof fn lemma_anchor_stored_once(d: SpecDispatcher)
    ensures
        spec_anchor_to_store(spec_anchor_to_store(d).0).1 is None,
        spec_anchor_to_store(spec_anchor_to_store(d).0).0 == spec_anchor_to_store(d).0,
{
}

/// An anchor cycle while connected always reaches the config store: from a
/// synced state, the next persist hands over the advanced anchor.
pub proof fn lemma_anchor_cycle_is_persisted(d: SpecDispatcher)
    requires
        d.stored_anchor == d.menu.anchor,
        d.menu.connection is Some,
    ensures
        ({
            let moved = SpecDispatcher {
                menu: spec_on_input(d.menu, InputIntent::AnchorCycle).menu,
                stored_anchor: d.stored_anchor,
            };
            spec_anchor_to_store(moved).1 == Some(spec_next_anchor(d.menu.anchor))
        }),
{
}

} // verus!
