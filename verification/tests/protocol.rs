//! The Discord local-RPC wire protocol: framing, the JSON payload codec,
//! command builders, parsers and frame routing.

use couchcord::json::{as_str, as_u64, get, json_decode, json_encode, JsonValue};
use couchcord::protocol::{
    encode, frame, frame_bytes, frame_header, get_channels, get_guilds, handshake, is_handshake,
    nonce, parse_guilds, parse_speaking, parse_voice_channels, parse_voice_event, pending_key,
    read_frame, ready_user, reply_data, route_frame, route_key, select_voice, selected_channel,
    subscribe_voice_events, voice_events, FrameRoute, OP_FRAME, OP_HANDSHAKE,
};
use couchcord::{AssetHash, ChannelId, ClientId, GuildId, UserId, VoiceEvent, VoiceKind};

fn parse(text: &str) -> JsonValue {
    json_decode(text.as_bytes()).unwrap()
}

/// The member at `path` of nested objects.
fn at<'a>(v: &'a JsonValue, path: &[&str]) -> Option<&'a JsonValue> {
    path.iter().try_fold(v, |cur, key| get(cur, key))
}

fn text_at<'a>(v: &'a JsonValue, path: &[&str]) -> Option<&'a str> {
    as_str(at(v, path))
}

/// Decode one complete frame from the front of `bytes`.
fn decode(bytes: &[u8]) -> (u32, JsonValue, usize) {
    read_frame(bytes).unwrap().unwrap()
}

#[test]
fn frame_round_trips() {
    let payload = parse(r#"{ "cmd": "GET_GUILDS", "nonce": "n1" }"#);
    let bytes = frame(OP_FRAME, &payload);
    let (op, val, consumed) = decode(&bytes);
    assert_eq!(op, OP_FRAME);
    assert_eq!(val, payload);
    assert_eq!(consumed, bytes.len());
    let mut more = bytes.clone();
    more.extend_from_slice(b"trailing");
    assert_eq!(read_frame(&more).unwrap(), Some((OP_FRAME, payload, bytes.len())));
}

#[test]
fn read_frame_needs_full_buffer() {
    let bytes = frame(OP_FRAME, &parse(r#"{ "x": 1 }"#));
    assert!(read_frame(&bytes[..4]).unwrap().is_none(), "header incomplete");
    assert!(read_frame(&bytes[..bytes.len() - 1]).unwrap().is_none(), "body incomplete");
    assert!(read_frame(&bytes).unwrap().is_some(), "complete");
}

#[test]
fn a_payload_that_is_no_json_is_an_error() {
    let bytes = frame_bytes(OP_FRAME, b"{not json");
    let err = read_frame(&bytes).unwrap_err().to_string();
    assert!(err.starts_with("json: "), "{err}");
    assert!(json_decode(b"[1,").is_err());
}

#[test]
fn json_text_is_written_and_read_back() {
    let v = parse(r#"{ "b": [true, null, -3, 2.5], "a": "x" }"#);
    assert_eq!(json_encode(&v), br#"{"a":"x","b":[true,null,-3,2.5]}"#.to_vec());
    assert_eq!(parse(&String::from_utf8(json_encode(&v)).unwrap()), v);
}

#[test]
fn frame_header_is_little_endian_op_and_length() {
    let bytes = frame_bytes(3, b"abc");
    assert_eq!(bytes, vec![3, 0, 0, 0, 3, 0, 0, 0, b'a', b'b', b'c']);
    let mut two = frame_bytes(OP_FRAME, b"{}");
    two.extend_from_slice(&frame_bytes(OP_HANDSHAKE, b"[]"));
    assert_eq!(frame_header(&two), Some((OP_FRAME, 10)), "only the first frame is consumed");
}

#[test]
fn handshake_carries_client_id_as_string() {
    let bytes = encode(&handshake(ClientId(1514871580591919246)));
    let (op, val, _) = decode(&bytes);
    assert_eq!(op, OP_HANDSHAKE);
    assert_eq!(as_u64(get(&val, "v")), Some(1));
    assert_eq!(text_at(&val, &["client_id"]), Some("1514871580591919246"));
    assert!(is_handshake(&bytes));
}

#[test]
fn select_voice_join_vs_leave() {
    let (_, join, _) = decode(&encode(&select_voice(Some(ChannelId(42)), "n")));
    assert_eq!(text_at(&join, &["args", "channel_id"]), Some("42"));
    let (_, leave, _) = decode(&encode(&select_voice(None, "n")));
    assert_eq!(at(&leave, &["args", "channel_id"]), Some(&JsonValue::Null));
    assert_eq!(text_at(&leave, &["cmd"]), Some("SELECT_VOICE_CHANNEL"));
}

#[test]
fn get_channels_carries_guild_id() {
    let (_, v, _) = decode(&encode(&get_channels(GuildId(7), "n")));
    assert_eq!(text_at(&v, &["cmd"]), Some("GET_CHANNELS"));
    assert_eq!(text_at(&v, &["args", "guild_id"]), Some("7"));
}

#[test]
fn commands_carry_their_nonce() {
    let n = nonce("cc-", 41);
    assert_eq!(n, "cc-41");
    let (op, v, _) = decode(&encode(&get_guilds(&n)));
    assert_eq!(op, OP_FRAME);
    assert_eq!(text_at(&v, &["cmd"]), Some("GET_GUILDS"));
    assert_eq!(text_at(&v, &["nonce"]), Some("cc-41"));
    assert_eq!(at(&v, &["args"]), Some(&JsonValue::Object(vec![])));
}

#[test]
fn subscription_names_event_and_channel() {
    let evts = voice_events();
    assert_eq!(
        evts,
        ["VOICE_STATE_CREATE", "VOICE_STATE_UPDATE", "VOICE_STATE_DELETE", "SPEAKING_START", "SPEAKING_STOP"]
    );
    let (_, v, _) = decode(&encode(&subscribe_voice_events(ChannelId(5), evts[3], "sub-1")));
    assert_eq!(text_at(&v, &["cmd"]), Some("SUBSCRIBE"));
    assert_eq!(text_at(&v, &["evt"]), Some("SPEAKING_START"));
    assert_eq!(text_at(&v, &["args", "channel_id"]), Some("5"));
    assert_eq!(text_at(&v, &["nonce"]), Some("sub-1"));
}

#[test]
fn parse_guilds_extracts_id_name_icon() {
    let data = parse(
        r#"{ "guilds": [
            { "id": "1", "name": "Friends", "icon": "abc123" },
            { "id": "2", "name": "Work" }
        ]}"#,
    );
    let g = parse_guilds(&data);
    assert_eq!(g.len(), 2);
    assert_eq!(g[0].name, "Friends");
    assert_eq!(g[0].icon, Some(AssetHash("abc123".into())));
    assert_eq!(g[1].icon, None);
}

#[test]
fn parse_guilds_skips_entries_without_an_id() {
    let data = parse(
        r#"{ "guilds": [ { "name": "NoId" }, { "id": "x", "name": "Bad" }, { "id": "4" },
                         { "id": "3", "name": "Kept", "icon": 5 } ] }"#,
    );
    let g = parse_guilds(&data);
    assert_eq!(g.len(), 1);
    assert_eq!(g[0].id, GuildId(3));
    assert_eq!(g[0].name, "Kept");
    assert_eq!(g[0].icon, None, "a non-string icon is dropped");
    assert!(parse_guilds(&parse("null")).is_empty());
}

#[test]
fn voice_filter_drops_text_keeps_voice_and_stage() {
    let data = parse(
        r#"{ "channels": [
            { "id": "10", "name": "general",   "type": 0 },
            { "id": "11", "name": "announce",  "type": 5 },
            { "id": "12", "name": "Voice",     "type": 2 },
            { "id": "13", "name": "Stage",     "type": 13 },
            { "id": "14", "name": "category",  "type": 4 }
        ]}"#,
    );
    let accept = [VoiceKind::Guild, VoiceKind::Stage];
    let chans = parse_voice_channels(&data, &accept);
    assert_eq!(chans.len(), 2);
    assert_eq!(chans[0].id, ChannelId(12));
    assert_eq!(chans[0].kind, VoiceKind::Guild);
    assert_eq!(chans[1].kind, VoiceKind::Stage);
}

#[test]
fn voice_filter_respects_config_disabling_stage() {
    let data = parse(
        r#"{ "channels": [
            { "id": "12", "name": "Voice", "type": 2 },
            { "id": "13", "name": "Stage", "type": 13 }
        ]}"#,
    );
    let chans = parse_voice_channels(&data, &[VoiceKind::Guild]);
    assert_eq!(chans.len(), 1);
    assert_eq!(chans[0].kind, VoiceKind::Guild);
}

#[test]
fn only_types_2_and_13_are_voice() {
    let data = parse(
        r#"{ "channels": [ { "id": "15", "name": "big", "type": 258 }, { "id": "16", "name": "neg", "type": -2 },
                           { "id": "17", "name": "stagey", "type": 269 }, { "id": "18", "name": "ok", "type": 13 } ] }"#,
    );
    let chans = parse_voice_channels(&data, &[VoiceKind::Guild, VoiceKind::Stage]);
    assert_eq!(chans.len(), 1);
    assert_eq!(chans[0].id, ChannelId(18));
    assert_eq!(chans[0].kind, VoiceKind::Stage);
}

#[test]
fn parse_speaking_start_stop() {
    let data = parse(r#"{ "channel_id": "10", "user_id": "100" }"#);
    assert_eq!(parse_speaking("SPEAKING_START", &data), Some((ChannelId(10), UserId(100), true)));
    assert_eq!(parse_speaking("SPEAKING_STOP", &data), Some((ChannelId(10), UserId(100), false)));
    assert_eq!(parse_speaking("VOICE_STATE_UPDATE", &data), None);
}

#[test]
fn voice_state_events_become_member_lists() {
    let data = parse(
        r#"{ "channel_id": "10", "user": { "id": "7", "username": "cal", "avatar": "av" },
             "voice_state": { "mute": true, "self_deaf": false } }"#,
    );
    match parse_voice_event("VOICE_STATE_CREATE", &data) {
        Some(VoiceEvent::Members { channel, members }) => {
            assert_eq!(channel, ChannelId(10));
            assert_eq!(members.len(), 1);
            assert_eq!(members[0].user, UserId(7));
        }
        other => panic!("unexpected {other:?}"),
    }
    assert!(parse_voice_event("MESSAGE_CREATE", &data).is_none());
}

#[test]
fn routing_ready_reply_and_voice() {
    let ready = parse(r#"{ "cmd": "DISPATCH", "evt": "READY", "data": { "user": { "id": "5" } } }"#);
    assert_eq!(route_frame(OP_FRAME, &ready), FrameRoute::Ready);
    let reply = parse(r#"{ "cmd": "GET_GUILDS", "nonce": "cc-3", "data": {} }"#);
    assert_eq!(route_frame(OP_FRAME, &reply), FrameRoute::Reply("cc-3".into()));
    let speaking = parse(r#"{ "evt": "SPEAKING_START", "data": { "channel_id": "1", "user_id": "2" } }"#);
    assert_eq!(
        route_frame(OP_FRAME, &speaking),
        FrameRoute::Voice(VoiceEvent::SpeakingChanged { channel: ChannelId(1), user: UserId(2), speaking: true })
    );
    let stray = parse(r#"{ "evt": "GUILD_STATUS" }"#);
    assert_eq!(route_frame(OP_FRAME, &stray), FrameRoute::Ignore);
}

#[test]
fn replies_meet_their_requests() {
    let hs = encode(&handshake(ClientId(9)));
    let ready = parse(r#"{ "evt": "READY", "data": {} }"#);
    assert_eq!(Some(pending_key(&hs, "cc-1")), route_key(&route_frame(OP_FRAME, &ready)));
    let req = encode(&get_guilds("cc-2"));
    assert_eq!(pending_key(&req, "cc-2"), "cc-2");
    let reply = parse(r#"{ "nonce": "cc-2", "data": [] }"#);
    assert_eq!(route_key(&route_frame(OP_FRAME, &reply)), Some("cc-2".to_string()));
    assert_eq!(route_key(&FrameRoute::Ignore), None);
}

#[test]
fn error_replies_become_errors() {
    let err = parse(r#"{ "evt": "ERROR", "data": { "message": "Invalid guild" } }"#);
    assert_eq!(reply_data(err).unwrap_err().to_string(), "discord error: Invalid guild");
    let bare = parse(r#"{ "evt": "ERROR" }"#);
    assert_eq!(reply_data(bare).unwrap_err().to_string(), "discord error: unknown");
    let ok = parse(r#"{ "nonce": "n", "data": { "id": "4" } }"#);
    assert_eq!(reply_data(ok).unwrap(), parse(r#"{ "id": "4" }"#));
    assert_eq!(reply_data(parse(r#"{ "nonce": "n" }"#)).unwrap(), JsonValue::Null);
}

#[test]
fn ready_user_and_selected_channel() {
    let data = parse(r#"{ "user": { "id": "123" } }"#);
    assert_eq!(ready_user(&data).unwrap(), UserId(123));
    let missing = parse(r#"{ "user": {} }"#);
    assert_eq!(ready_user(&missing).unwrap_err().to_string(), "handshake READY missing user id");
    assert_eq!(selected_channel(&parse(r#"{ "id": "77" }"#)), Some(ChannelId(77)));
    assert_eq!(selected_channel(&JsonValue::Null), None);
}
