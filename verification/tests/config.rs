//! Config defaults and validation. The TOML text is decoded here with the
//! `toml` crate's table API, as the file loader does before validating.

use couchcord::config::{default_anchor, default_path, default_voice_kinds, validate};
use couchcord::{Anchor, ClientId, Config, ConfigError, Theme, VoiceKind};

fn anchor_named(s: &str) -> Option<Anchor> {
    Anchor::ALL.into_iter().find(|a| format!("{a:?}") == s)
}

fn kind_named(s: &str) -> Option<VoiceKind> {
    match s {
        "Guild" => Some(VoiceKind::Guild),
        "Stage" => Some(VoiceKind::Stage),
        _ => None,
    }
}

fn parse(text: &str) -> Result<Config, ConfigError> {
    let bad = |what: &str| ConfigError::new(&format!("parse: {what}"));
    let t: toml::Table = text.parse().map_err(|_| bad("invalid TOML"))?;
    let client_id = match t.get("client_id") {
        Some(toml::Value::Integer(i)) if *i >= 0 => ClientId(*i as u64),
        Some(_) => return Err(bad("invalid client_id")),
        None => return Err(bad("missing field `client_id`")),
    };
    let anchor = match t.get("anchor") {
        Some(toml::Value::String(s)) => anchor_named(s).ok_or_else(|| bad("unknown anchor"))?,
        Some(_) => return Err(bad("invalid anchor")),
        None => default_anchor(),
    };
    let voice_kinds = match t.get("voice_kinds") {
        Some(toml::Value::Array(a)) => a
            .iter()
            .map(|v| v.as_str().and_then(kind_named).ok_or_else(|| bad("unknown voice kind")))
            .collect::<Result<Vec<_>, _>>()?,
        Some(_) => return Err(bad("invalid voice_kinds")),
        None => default_voice_kinds(),
    };
    let cfg = Config { client_id, anchor, voice_kinds, theme: Theme::default() };
    validate(&cfg)?;
    Ok(cfg)
}

const FULL: &str = r#"
    client_id = 1514871580591919246
    anchor = "BottomLeft"
    voice_kinds = ["Guild", "Stage"]
"#;

#[test]
fn parses_a_full_config() {
    let c = parse(FULL).unwrap();
    assert_eq!(c.client_id.0, 1514871580591919246);
    assert_eq!(c.anchor, Anchor::BottomLeft);
    assert!(c.accepts(VoiceKind::Guild) && c.accepts(VoiceKind::Stage));
}

#[test]
fn applies_defaults_for_omitted_fields() {
    let c = parse("client_id = 42").unwrap();
    assert_eq!(c.anchor, Anchor::TopRight);
    assert_eq!(c.voice_kinds, vec![VoiceKind::Guild, VoiceKind::Stage]);
    assert_eq!(c.theme.accent, "#66c0f4");
}

#[test]
fn missing_client_id_is_an_error() {
    assert!(parse("anchor = \"TopLeft\"").is_err());
    assert!(parse("client_id = 0").is_err());
}

#[test]
fn empty_voice_kinds_rejected() {
    assert!(parse("client_id = 1\nvoice_kinds = []").is_err());
}

#[test]
fn validation_messages_name_the_problem() {
    let mut c = parse("client_id = 1").unwrap();
    c.client_id = ClientId(0);
    assert_eq!(validate(&c).unwrap_err().to_string(), "client_id is required (register a Discord app)");
    c.client_id = ClientId(5);
    c.voice_kinds.clear();
    assert_eq!(validate(&c).unwrap_err().to_string(), "voice_kinds must list at least one kind");
    c.voice_kinds.push(VoiceKind::Stage);
    assert!(validate(&c).is_ok());
    assert!(!c.accepts(VoiceKind::Guild));
}

#[test]
fn default_theme_is_steam_styled() {
    let t = Theme::default();
    assert_eq!(t.bg, "#171a21");
    assert_eq!(t.accent, "#66c0f4");
}

#[test]
fn default_path_follows_the_environment() {
    assert_eq!(default_path(Some("/xdg"), Some("/home/a")), "/xdg/couchcord/config.toml");
    assert_eq!(default_path(None, Some("/home/a")), "/home/a/.config/couchcord/config.toml");
    assert_eq!(default_path(None, None), "/root/.config/couchcord/config.toml");
}
