//! The shared `Config` snapshot type and its validation. The TOML file format
//! itself is decoded outside the library; everything here works on the decoded
//! values.

use crate::error::ConfigError;
use crate::ids::ClientId;
use crate::model::{Anchor, VoiceKind};
use crate::tenant::{path_join, push_component};
use std::sync::Arc;
use vstd::prelude::*;
use vstd::string::*;

verus! {

/// An immutable configuration snapshot.
#[derive(Debug, PartialEq)]
pub struct Config {
    /// The registered Discord application id.
    pub client_id: ClientId,
    /// Default overlay anchor at startup.
    pub anchor: Anchor,
    /// Which channel kinds count as "voice" for the browser. Defaults to both
    /// regular and stage voice.
    pub voice_kinds: Vec<VoiceKind>,
    /// Theme knobs the renderer reads.
    pub theme: Theme,
}

impl Clone for Config {
    fn clone(&self) -> (r: Self)
        ensures
            r.client_id == self.client_id,
            r.anchor == self.anchor,
            r.voice_kinds@ == self.voice_kinds@,
            r.theme == self.theme,
    {
        Config {
            client_id: self.client_id,
            anchor: self.anchor,
            voice_kinds: self.voice_kinds.clone(),
            theme: self.theme.clone(),
        }
    }
}

impl Config {
    /// Whether a given voice kind is browsable under this config.
    pub fn accepts(&self, kind: VoiceKind) -> (b: bool)
        ensures
            b == self.voice_kinds@.contains(kind),
    {
        let mut i: usize = 0;
        while i < self.voice_kinds.len()
            invariant
                i <= self.voice_kinds.len(),
                forall|j: int| 0 <= j < i ==> self.voice_kinds@[j] != kind,
            decreases self.voice_kinds.len() - i,
        {
            if self.voice_kinds[i] == kind {
                return true;
            }
            i = i + 1;
        }
        false
    }
}

/// Steam-client-styled colours (dark, blue accent), as `#rrggbb` strings.
#[derive(Debug, PartialEq)]
pub struct Theme {
    pub bg: String,
    pub fg: String,
    pub accent: String,
    pub muted: String,
}

impl Clone for Theme {
    fn clone(&self) -> (r: Self)
        ensures
            r == *self,
    {
        Theme {
            bg: self.bg.clone(),
            fg: self.fg.clone(),
            accent: self.accent.clone(),
            muted: self.muted.clone(),
        }
    }
}

impl Default for Theme {
    fn default() -> (t: Theme)
        ensures
            t.bg@ == "#171a21"@,
            t.fg@ == "#c7d5e0"@,
            t.accent@ == "#66c0f4"@,
            t.muted@ == "#8f98a0"@,
    {
        Theme {
            bg: String::from_str("#171a21"),
            fg: String::from_str("#c7d5e0"),
            accent: String::from_str("#66c0f4"),
            muted: String::from_str("#8f98a0"),
        }
    }
}

/// The anchor used when the config file names none.
pub fn default_anchor() -> (a: Anchor)
    ensures
        a == Anchor::TopRight,
{
    Anchor::TopRight
}

/// The voice kinds browsable when the config file names none: both.
pub fn default_voice_kinds() -> (v: Vec<VoiceKind>)
    ensures
        v@ == seq![VoiceKind::Guild, VoiceKind::Stage],
{
    let mut v = Vec::new();
    v.push(VoiceKind::Guild);
    v.push(VoiceKind::Stage);
    v
}

/// The message for a config without an application id.
pub open spec fn missing_client_id_msg() -> Seq<char> {
    "client_id is required (register a Discord app)"@
}

/// The message for a config that accepts no voice kind.
pub open spec fn no_voice_kinds_msg() -> Seq<char> {
    "voice_kinds must list at least one kind"@
}

/// Check a decoded config: the application id must be set (non-zero) and at
/// least one voice kind must be accepted.
pub fn validate(cfg: &Config) -> (r: Result<(), ConfigError>)
    ensures
        cfg.client_id.0 == 0 ==> (r matches Err(e) && e.0@ == missing_client_id_msg()),
        cfg.client_id.0 != 0 && cfg.voice_kinds@.len() == 0 ==> (r matches Err(e) && e.0@
            == no_voice_kinds_msg()),
        r is Ok <==> (cfg.client_id.0 != 0 && cfg.voice_kinds@.len() > 0),
{
    if cfg.client_id.0 == 0 {
        return Err(ConfigError::new("client_id is required (register a Discord app)"));
    }
    if cfg.voice_kinds.len() == 0 {
        return Err(ConfigError::new("voice_kinds must list at least one kind"));
    }
    Ok(())
}

/// Where the running daemon reads its configuration: a cheap snapshot, never
/// a message on a channel, plus best-effort persistence of a changed anchor.
pub trait ConfigSource: Send + Sync {
    /// The current configuration snapshot.
    fn current(&self) -> Arc<Config>;

    /// Adopt `anchor` as the overlay anchor and persist it where the source
    /// can (never failing the caller).
    fn store_anchor(&self, anchor: Anchor);
}

/// Default config file path: `$XDG_CONFIG_HOME/couchcord/config.toml`, with
/// `$HOME/.config` (or `/root/.config`) standing in when that is unset.
pub open spec fn spec_default_path(xdg_config_home: Option<Seq<char>>, home: Option<Seq<char>>) -> Seq<char> {
    let base = match xdg_config_home {
        Some(x) => x,
        None => path_join(
            match home {
                Some(h) => h,
                None => "/root"@,
            },
            ".config"@,
        ),
    };
    path_join(path_join(base, "couchcord"@), "config.toml"@)
}

/// The default config path, from the values of `XDG_CONFIG_HOME` and `HOME`.
pub fn default_path(xdg_config_home: Option<&str>, home: Option<&str>) -> (p: String)
    ensures
        p@ == spec_default_path(
            match xdg_config_home {
                Some(x) => Some(x@),
                None => None,
            },
            match home {
                Some(h) => Some(h@),
                None => None,
            },
        ),
{
    let mut p = match xdg_config_home {
        Some(x) => x.to_owned(),
        None => {
            let mut b = match home {
                Some(h) => h.to_owned(),
                None => String::from_str("/root"),
            };
            push_component(&mut b, ".config");
            b
        },
    };
    push_component(&mut p, "couchcord");
    push_component(&mut p, "config.toml");
    p
}

} // verus!
