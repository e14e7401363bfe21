//! Multi-tenant detection from Steam's `loginusers.vdf`.

use couchcord::tenant::{
    loginusers_path, parse_most_recent, state_root, tenant_from_loginusers, STEAMID64_BASE,
};
use couchcord::Tenant;

const SAMPLE: &str = r#""users"
{
	"76561198177326773"
	{
		"AccountName"		"alpha"
		"MostRecent"		"0"
		"Timestamp"		"1782947639"
	}
	"76561198040675702"
	{
		"AccountName"		"bravo"
		"MostRecent"		"1"
		"Timestamp"		"1782966107"
	}
}
"#;

#[test]
fn picks_the_most_recent_block() {
    assert_eq!(parse_most_recent(SAMPLE), Some(76561198040675702));
}

#[test]
fn account_id_conversion() {
    let t = Tenant { account_id: (76561198040675702u64 - STEAMID64_BASE) as u32 };
    assert_eq!(t.account_id, 80409974);
    assert!(t.state_dir("/home/deck/.local/state/couchcord").ends_with("tenants/80409974"));
}

#[test]
fn none_when_no_most_recent() {
    assert_eq!(parse_most_recent("\"users\"\n{\n}\n"), None);
}

#[test]
fn tenant_comes_from_the_most_recent_login() {
    assert_eq!(tenant_from_loginusers(SAMPLE), Some(Tenant { account_id: 80409974 }));
    assert_eq!(tenant_from_loginusers(""), None);
}

#[test]
fn crlf_files_parse_too() {
    let text = SAMPLE.replace('\n', "\r\n");
    assert_eq!(parse_most_recent(&text), Some(76561198040675702));
}

#[test]
fn state_paths_follow_the_environment() {
    assert_eq!(state_root(Some("/xdg"), Some("/home/a")), "/xdg/couchcord");
    assert_eq!(state_root(Some(""), Some("/home/a")), "/home/a/.local/state/couchcord");
    assert_eq!(state_root(None, None), "./.local/state/couchcord");
    let t = Tenant { account_id: 7 };
    assert_eq!(t.state_dir("/xdg/couchcord/"), "/xdg/couchcord/tenants/7");
    assert_eq!(loginusers_path(Some("/tmp/l.vdf"), Some("/home/a")), Some("/tmp/l.vdf".to_string()));
    assert_eq!(
        loginusers_path(None, Some("/home/a")),
        Some("/home/a/.steam/steam/config/loginusers.vdf".to_string())
    );
    assert_eq!(loginusers_path(None, None), None);
}
