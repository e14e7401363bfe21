//! Properties of the menu engine that span calls or hold of every state.

use crate::menu::spec::{
    channel_label, channel_row_count, clamp_sel, idle, is_connected, is_open, leave_row,
    spec_menu_view, spec_on_config, spec_on_discord, spec_on_input, spec_scene, Screen, SpecMenu,
};
use crate::model::VoiceKind;
use crate::ids::UserId;
use crate::scene::{RowState, SpecMenuView, SpecRow};
use crate::model::{anchor_after, Anchor};
use crate::msg::{InputControl, InputIntent, SpecDiscordEvent};
use vstd::prelude::*;

verus! {

/// The input-capture transitions an intent should produce, given whether the
/// menu was open before and after it.
pub open spec fn capture_transition(was_open: bool, now_open: bool) -> Seq<InputControl> {
    if !was_open && now_open {
        seq![InputControl::Grab]
    } else if was_open && !now_open {
        seq![InputControl::Release]
    } else {
        seq![]
    }
}

/// Input is grabbed exactly while the menu is open: every intent emits `Grab`
/// precisely when it opens the menu, `Release` precisely when it closes it,
/// and nothing otherwise. Discord events and config changes never open or
/// close the menu. So a consumer that grabs on `Grab` and releases on
/// `Release` holds the grab exactly while the menu is visible.
pub proof fn lemma_capture_follows_menu(m: SpecMenu, i: InputIntent, e: SpecDiscordEvent, a: Anchor)
    ensures
        spec_on_input(m, i).controls == capture_transition(is_open(m), is_open(spec_on_input(m, i).menu)),
        is_open(spec_on_discord(m, e)) == is_open(m),
        is_open(spec_on_config(m, a)) == is_open(m),
{
    assert(seq![] + seq![InputControl::Release] =~= seq![InputControl::Release]);
    assert(seq![] + Seq::<InputControl>::empty() =~= Seq::<InputControl>::empty());
}

/// The menu and the overlay are independent layers: the menu layer is drawn
/// exactly when the menu is open, and the overlay exactly when a voice
/// channel is connected, whatever the other one does.
pub proof fn lemma_layers_independent(m: SpecMenu)
    ensures
        spec_scene(m).menu is Some <==> is_open(m),
        spec_scene(m).overlay is Some <==> is_connected(m),
{
}

/// Navigation while the menu is closed is inert: it changes no state, issues
/// no command and no capture change.
pub proof fn lemma_closed_navigation_is_inert(m: SpecMenu, i: InputIntent)
    requires
        !is_open(m),
        i != InputIntent::Chord,
        i != InputIntent::AnchorCycle,
    ensures
        spec_on_input(m, i) == idle(m),
{
}

/// The cursor of a list wraps: `Down` then `Up` returns to the same state,
/// and so does `Up` then `Down`, for any cursor inside a list (of a length a
/// `usize` can count).
pub proof fn lemma_cursor_round_trip(m: SpecMenu)
    requires
        match m.screen {
            Screen::Guilds { cursor, .. } => cursor < m.guilds.len() <= usize::MAX,
            Screen::Channels { cursor, .. } => cursor < channel_row_count(m) <= usize::MAX,
            Screen::Closed => true,
        },
    ensures
        spec_on_input(spec_on_input(m, InputIntent::Down).menu, InputIntent::Up).menu == m,
        spec_on_input(spec_on_input(m, InputIntent::Up).menu, InputIntent::Down).menu == m,
{
    match m.screen {
        Screen::Guilds { cursor, loading } => {
            let len = m.guilds.len() as int;
            if len > 0 {
                lemma_mod_round_trip(cursor as int, len);
            }
        },
        Screen::Channels { guild, cursor, loading } => {
            let len = channel_row_count(m) as int;
            if len > 0 {
                lemma_mod_round_trip(cursor as int, len);
            }
        },
        Screen::Closed => {},
    }
}

proof fn lemma_mod_round_trip(c: int, len: int)
    requires
        0 <= c < len,
    ensures
        ((c + 1) % len - 1) % len == c,
        ((c - 1) % len + 1) % len == c,
        0 <= (c + 1) % len < len,
        0 <= (c - 1) % len < len,
{
    vstd::arithmetic::div_mod::lemma_small_mod(c as nat, len as nat);
    if c + 1 < len {
        vstd::arithmetic::div_mod::lemma_small_mod((c + 1) as nat, len as nat);
    } else {
        vstd::arithmetic::div_mod::lemma_mod_self_0(len);
        vstd::arithmetic::div_mod::lemma_fundamental_div_mod_converse(-1, len, -1, len - 1);
    }
    if c > 0 {
        vstd::arithmetic::div_mod::lemma_small_mod((c - 1) as nat, len as nat);
    } else {
        vstd::arithmetic::div_mod::lemma_fundamental_div_mod_converse(-1, len, -1, len - 1);
        vstd::arithmetic::div_mod::lemma_mod_self_0(len);
    }
}

/// The highlighted row of a shown list is always one of its rows.
pub proof fn lemma_selection_in_range(m: SpecMenu)
    ensures
        match spec_scene(m).menu {
            Some(v) => v.rows.len() == 0 || v.selected < v.rows.len(),
            None => true,
        },
{
}

/// With a live connection, eight `AnchorCycle`s bring the overlay back to
/// where it started, having visited every anchor on the way; the rest of the
/// state is untouched.
pub proof fn lemma_anchor_cycle_returns(m: SpecMenu)
    requires
        is_connected(m),
    ensures
        cycle_anchor(m, 8) == m,
        forall|k: nat| k <= 8 ==> (#[trigger] cycle_anchor(m, k)).anchor == anchor_after(m.anchor, k),
{
    assert forall|k: nat| k <= 8 implies (#[trigger] cycle_anchor(m, k)).anchor == anchor_after(
        m.anchor,
        k,
    ) && cycle_anchor(m, k) == (SpecMenu { anchor: anchor_after(m.anchor, k), ..m }) by {
        lemma_cycle_anchor_shape(m, k);
    }
    lemma_cycle_anchor_shape(m, 8);
    crate::model::lemma_anchor_cycle(m.anchor);
}

/// The state after `k` `AnchorCycle` intents.
pub open spec fn cycle_anchor(m: SpecMenu, k: nat) -> SpecMenu
    decreases k,
{
    if k == 0 {
        m
    } else {
        spec_on_input(cycle_anchor(m, (k - 1) as nat), InputIntent::AnchorCycle).menu
    }
}

proof fn lemma_cycle_anchor_shape(m: SpecMenu, k: nat)
    requires
        is_connected(m),
    ensures
        cycle_anchor(m, k) == (SpecMenu { anchor: anchor_after(m.anchor, k), ..m }),
    decreases k,
{
    if k > 0 {
        lemma_cycle_anchor_shape(m, (k - 1) as nat);
    }
}

/// Without a connection `AnchorCycle` changes nothing.
pub proof fn lemma_anchor_cycle_needs_connection(m: SpecMenu)
    requires
        !is_connected(m),
    ensures
        spec_on_input(m, InputIntent::AnchorCycle) == idle(m),
{
}

/// Leaving or losing Discord removes the overlay, and a roster or speaking
/// update for a channel other than the connected one changes nothing.
pub proof fn lemma_voice_events(m: SpecMenu, e: SpecDiscordEvent)
    ensures
        (e is LeftVoice || e is Disconnected) ==> spec_scene(spec_on_discord(m, e)).overlay is None,
        (match (e, m.connection) {
            (SpecDiscordEvent::VoiceMembers { channel, .. }, Some(c)) => channel != c.channel,
            (SpecDiscordEvent::SpeakingChanged { channel, .. }, Some(c)) => channel != c.channel,
            (SpecDiscordEvent::VoiceMembers { .. }, None) => true,
            (SpecDiscordEvent::SpeakingChanged { .. }, None) => true,
            _ => false,
        }) ==> spec_on_discord(m, e) == m,
{
}

/// The menu layer is shown exactly while the menu is open. A screen still
/// loading shows its title over one `Loading…` row. A loaded channel screen
/// lists the `⏏ Leave voice` action row first when connected, then one row
/// per browsed voice channel (stage channels prefixed with a microphone, the
/// connected one marked active), with the cursor clamped to the rows.
pub proof fn lemma_menu_view_shape(m: SpecMenu)
    ensures
        (spec_menu_view(m) is None) == !is_open(m),
        m.screen matches Screen::Guilds { loading: true, .. } ==> spec_menu_view(m) == Some(
            SpecMenuView {
                title: "Servers"@,
                rows: seq![SpecRow { label: "Loading…"@, icon: None, state: RowState::Loading }],
                selected: 0,
            },
        ),
        m.screen matches Screen::Channels { loading: true, .. } ==> spec_menu_view(m) == Some(
            SpecMenuView {
                title: "Voice Channels"@,
                rows: seq![SpecRow { label: "Loading…"@, icon: None, state: RowState::Loading }],
                selected: 0,
            },
        ),
        m.screen matches Screen::Channels { loading: false, cursor, .. } ==> {
            let off: int = if is_connected(m) { 1 } else { 0 };
            &&& spec_menu_view(m) matches Some(v)
            &&& v.title == "Voice Channels"@
            &&& v.rows.len() == channel_row_count(m)
            &&& v.selected == clamp_sel(cursor as nat, v.rows.len())
            &&& is_connected(m) ==> v.rows[0] == leave_row() && leave_row() == SpecRow {
                label: "⏏ Leave voice"@,
                icon: None,
                state: RowState::Action,
            }
            &&& forall|i: int|
                0 <= i < m.channels.len() ==> #[trigger] v.rows[i + off] == SpecRow {
                    label: if m.channels[i].kind == VoiceKind::Stage {
                        "🎙 "@ + m.channels[i].name
                    } else {
                        m.channels[i].name
                    },
                    icon: None,
                    state: if m.connection matches Some(c) && c.channel == m.channels[i].id {
                        RowState::Active
                    } else {
                        RowState::Normal
                    },
                }
        },
{
    if let Screen::Channels { loading: false, cursor, .. } = m.screen {
        let off: int = if is_connected(m) { 1 } else { 0 };
        let v = spec_menu_view(m)->0;
        assert forall|i: int| 0 <= i < m.channels.len() implies #[trigger] v.rows[i + off] == SpecRow {
            label: if m.channels[i].kind == VoiceKind::Stage {
                "🎙 "@ + m.channels[i].name
            } else {
                m.channels[i].name
            },
            icon: None,
            state: if m.connection matches Some(c) && c.channel == m.channels[i].id {
                RowState::Active
            } else {
                RowState::Normal
            },
        } by {
            assert(channel_label(m.channels[i]) == if m.channels[i].kind == VoiceKind::Stage {
                "🎙 "@ + m.channels[i].name
            } else {
                m.channels[i].name
            });
        }
    }
}

/// `Down` and `Up` move the cursor of an open list by one row, wrapping
/// around (Euclidean remainder by the list's length); an empty list, or the
/// closed menu, stays as it is; nothing else in the state changes.
pub proof fn lemma_cursor_moves_wrap(m: SpecMenu, down: bool)
    ensures
        ({
            let delta: int = if down { 1 } else { -1 };
            let i = if down { InputIntent::Down } else { InputIntent::Up };
            let after = spec_on_input(m, i);
            &&& after.cmds.len() == 0 && after.controls.len() == 0
            &&& after.menu.guilds == m.guilds && after.menu.channels == m.channels
            &&& after.menu.connection == m.connection && after.menu.anchor == m.anchor
            &&& match m.screen {
                Screen::Guilds { cursor, loading } => after.menu.screen == if m.guilds.len() == 0 {
                    m.screen
                } else {
                    Screen::Guilds {
                        cursor: ((cursor + delta) % (m.guilds.len() as int)) as usize,
                        loading,
                    }
                },
                Screen::Channels { guild, cursor, loading } => after.menu.screen == if channel_row_count(m)
                    == 0 {
                    m.screen
                } else {
                    Screen::Channels {
                        guild,
                        cursor: ((cursor + delta) % (channel_row_count(m) as int)) as usize,
                        loading,
                    }
                },
                Screen::Closed => after.menu == m,
            }
        }),
{
}

/// A speaking change for the connected channel sets the speaking flag of the
/// first roster member with that user id to exactly the event's value (so a
/// stop clears the indicator); every other member, the roster's length and
/// the member's other fields stay as they were.
pub proof fn lemma_speaking_change_sets_flag(m: SpecMenu, user: UserId, speaking: bool, i: int)
    requires
        m.connection is Some,
        0 <= i < m.connection->0.members.len(),
        m.connection->0.members[i].user == user,
        forall|j: int| 0 <= j < i ==> (#[trigger] m.connection->0.members[j]).user != user,
    ensures
        ({
            let before = m.connection->0.members;
            let after = spec_on_discord(
                m,
                SpecDiscordEvent::SpeakingChanged { channel: m.connection->0.channel, user, speaking },
            );
            &&& after.connection is Some
            &&& after.connection->0.members.len() == before.len()
            &&& after.connection->0.members[i].speaking == speaking
            &&& after.connection->0.members[i].user == before[i].user
            &&& after.connection->0.members[i].name == before[i].name
            &&& after.connection->0.members[i].avatar == before[i].avatar
            &&& after.connection->0.members[i].muted == before[i].muted
            &&& after.connection->0.members[i].deafened == before[i].deafened
            &&& forall|j: int| 0 <= j < before.len() && j != i ==> after.connection->0.members[j] == before[j]
        }),
{
    let ms = m.connection->0.members;
    assert(exists|k: int| 0 <= k < ms.len() && (#[trigger] ms[k]).user == user);
    let k = choose|k: int|
        0 <= k < ms.len() && (#[trigger] ms[k]).user == user && (forall|j: int|
            0 <= j < k ==> (#[trigger] ms[j]).user != user);
    assert(0 <= i < ms.len() && ms[i].user == user && forall|j: int| 0 <= j < i ==> (#[trigger] ms[j]).user != user);
    if k < i {
        assert(ms[k].user != user);
    } else if k > i {
        assert(ms[i].user != user);
    }
}

} // verus!
