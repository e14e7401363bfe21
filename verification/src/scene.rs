//! The render `Scene` contract — the boundary between the menu engine
//! (producer) and the renderer (consumer).
//!
//! `menu` and `overlay` are **independent layers**: the voice-activity overlay
//! renders whenever connected, regardless of whether the menu is open.

use crate::ids::AssetHash;
use crate::model::{hash_view, Anchor, SpecVoiceMember, VoiceMember};
use crate::msg::members_view;
use vstd::prelude::*;

verus! {

/// An immutable, idempotent snapshot of what should be on screen. Dropped frames
/// self-heal because the next `Scene` is the complete truth.
#[derive(Clone, Debug, PartialEq, Eq)]
pub struct Scene {
    /// The menu layer; `None` when dismissed.
    pub menu: Option<MenuView>,
    /// The always-on voice overlay; `Some` whenever connected to a channel.
    pub overlay: Option<Overlay>,
}

/// The mathematical value of a [`Scene`].
pub struct SpecScene {
    pub menu: Option<SpecMenuView>,
    pub overlay: Option<SpecOverlay>,
}

impl View for Scene {
    type V = SpecScene;

    open spec fn view(&self) -> SpecScene {
        SpecScene {
            menu: match self.menu {
                Some(m) => Some(m@),
                None => None,
            },
            overlay: match self.overlay {
                Some(o) => Some(o@),
                None => None,
            },
        }
    }
}

impl Default for Scene {
    fn default() -> (s: Scene)
        ensures
            s.menu is None,
            s.overlay is None,
    {
        Scene { menu: None, overlay: None }
    }
}

impl Scene {
    /// The blank scene: no menu, no overlay.
    pub fn empty() -> (s: Scene)
        ensures
            s.menu is None,
            s.overlay is None,
    {
        Scene { menu: None, overlay: None }
    }

    /// True if nothing is drawn (no menu, no overlay) — the renderer can hide
    /// the window entirely.
    pub fn is_blank(&self) -> (b: bool)
        ensures
            b == (self.menu is None && self.overlay is None),
    {
        self.menu.is_none() && self.overlay.is_none()
    }
}

/// A declarative menu screen: a title, rows, and which row is selected.
#[derive(Clone, Debug, PartialEq, Eq)]
pub struct MenuView {
    pub title: String,
    pub rows: Vec<Row>,
    pub selected: usize,
}

/// The mathematical value of a [`MenuView`].
pub struct SpecMenuView {
    pub title: Seq<char>,
    pub rows: Seq<SpecRow>,
    pub selected: nat,
}

/// Element-wise view of a sequence of rows.
pub open spec fn rows_view(v: Seq<Row>) -> Seq<SpecRow> {
    v.map_values(|r: Row| r@)
}

impl View for MenuView {
    type V = SpecMenuView;

    open spec fn view(&self) -> SpecMenuView {
        SpecMenuView { title: self.title@, rows: rows_view(self.rows@), selected: self.selected as nat }
    }
}

/// One selectable row. `icon` is an opaque asset hash the renderer resolves;
/// `None` → initials/placeholder tile.
#[derive(Clone, Debug, PartialEq, Eq)]
pub struct Row {
    pub label: String,
    pub icon: Option<AssetHash>,
    pub state: RowState,
}

/// The mathematical value of a [`Row`].
pub struct SpecRow {
    pub label: Seq<char>,
    pub icon: Option<Seq<char>>,
    pub state: RowState,
}

impl View for Row {
    type V = SpecRow;

    open spec fn view(&self) -> SpecRow {
        SpecRow { label: self.label@, icon: hash_view(self.icon), state: self.state }
    }
}

/// Visual state of a row, so the renderer can style without knowing semantics.
#[derive(Clone, Copy, Debug, PartialEq, Eq, Structural)]
#[non_exhaustive]
pub enum RowState {
    Normal,
    /// A spinner / "loading…" row.
    Loading,
    /// The currently-connected channel, when shown in a list.
    Active,
    /// A back / leave affordance.
    Action,
}

/// The voice-activity overlay layer.
#[derive(Clone, Debug, PartialEq, Eq)]
pub struct Overlay {
    pub anchor: Anchor,
    pub roster: Roster,
}

/// The mathematical value of an [`Overlay`].
pub struct SpecOverlay {
    pub anchor: Anchor,
    pub roster: SpecRoster,
}

impl View for Overlay {
    type V = SpecOverlay;

    open spec fn view(&self) -> SpecOverlay {
        SpecOverlay { anchor: self.anchor, roster: self.roster@ }
    }
}

/// Who is in the connected channel right now.
#[derive(Clone, Debug, PartialEq, Eq)]
pub struct Roster {
    pub channel_name: String,
    pub members: Vec<VoiceMember>,
}

/// The mathematical value of a [`Roster`].
pub struct SpecRoster {
    pub channel_name: Seq<char>,
    pub members: Seq<SpecVoiceMember>,
}

impl View for Roster {
    type V = SpecRoster;

    open spec fn view(&self) -> SpecRoster {
        SpecRoster { channel_name: self.channel_name@, members: members_view(self.members@) }
    }
}

impl Default for Roster {
    fn default() -> (r: Roster)
        ensures
            r@.channel_name.len() == 0,
            r@.members.len() == 0,
    {
        Roster { channel_name: String::new(), members: Vec::new() }
    }
}

} // verus!
