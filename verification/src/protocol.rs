//! The Discord **local RPC** protocol: IPC frame encode/decode, command
//! building, response/event parsing, request/reply correlation decisions and —
//! owned here — the **voice-channel filter**. Every function is a value→value
//! transform; the socket lives outside. Payload JSON text is read and written
//! through `serde_json` (see [`crate::json`]).

use crate::error::RpcError;
use crate::ids::{AssetHash, ChannelId, ClientId, GuildId, UserId};
use crate::json::{
    as_bool, as_str, as_u64, get, json_decode, json_encode, spec_as_bool, spec_as_str, spec_as_u64,
    spec_get, spec_json_decode, spec_json_encode, JsonNumber, JsonValue,
};
use crate::model::{
    spec_kind_of_type, Guild, SpecGuild, SpecVoiceChannel, SpecVoiceMember, VoiceChannel,
    VoiceKind, VoiceMember,
};
use crate::msg::{guilds_view, channels_view, members_view, SpecVoiceEvent, VoiceEvent};
use crate::tenant::{path_join, push_component};
use crate::text::{
    chars_eq_str, chars_of, decimal, parse_u64, push_decimal, seq_starts_with, spec_parse_unsigned,
    starts_with,
};
use vstd::prelude::*;
use vstd::string::*;

verus! {

/// RPC IPC opcodes (the first header field).
pub const OP_HANDSHAKE: u32 = 0;
pub const OP_FRAME: u32 = 1;
pub const OP_CLOSE: u32 = 2;
pub const OP_PING: u32 = 3;
pub const OP_PONG: u32 = 4;

// ---------------------------------------------------------------------------
// Framing
// ---------------------------------------------------------------------------

/// The four little-endian bytes of `x`.
pub open spec fn le32(x: u32) -> Seq<u8> {
    seq![
        (x % 256) as u8,
        ((x / 256) % 256) as u8,
        ((x / 65536) % 256) as u8,
        ((x / 16777216) % 256) as u8,
    ]
}

/// The number four little-endian bytes spell.
pub open spec fn from_le32(b: Seq<u8>) -> nat {
    (b[0] as nat) + 256 * (b[1] as nat) + 65536 * (b[2] as nat) + 16777216 * (b[3] as nat)
}

/// One IPC frame: `u32 LE opcode | u32 LE length | payload`. The length field
/// is the payload length truncated to 32 bits.
pub open spec fn spec_frame(op: u32, body: Seq<u8>) -> Seq<u8> {
    le32(op) + le32(body.len() as u32) + body
}

fn le_bytes(x: u32, out: &mut Vec<u8>)
    ensures
        final(out)@ == old(out)@ + le32(x),
{
    proof {
        assert(x & 0xff == x % 256) by (bit_vector);
        assert((x >> 8) & 0xff == (x / 256) % 256) by (bit_vector);
        assert((x >> 16) & 0xff == (x / 65536) % 256) by (bit_vector);
        assert((x >> 24) & 0xff == (x / 16777216) % 256) by (bit_vector);
    }
    out.push((x & 0xff) as u8);
    out.push(((x >> 8) & 0xff) as u8);
    out.push(((x >> 16) & 0xff) as u8);
    out.push(((x >> 24) & 0xff) as u8);
    assert(final(out)@ =~= old(out)@ + le32(x));
}

/// Encode one IPC frame around an already-encoded payload.
pub fn frame_bytes(op: u32, body: &[u8]) -> (out: Vec<u8>)
    ensures
        out@ == spec_frame(op, body@),
{
    let mut out: Vec<u8> = Vec::new();
    le_bytes(op, &mut out);
    le_bytes(body.len() as u32, &mut out);
    let mut i: usize = 0;
    while i < body.len()
        invariant
            i <= body@.len(),
            out@ == le32(op) + le32(body@.len() as u32) + body@.take(i as int),
        decreases body.len() - i,
    {
        out.push(body[i]);
        i = i + 1;
        assert(out@ =~= le32(op) + le32(body@.len() as u32) + body@.take(i as int));
    }
    assert(body@.take(body@.len() as int) =~= body@);
    out
}

/// The header of the first frame in `buf`, once the whole frame has arrived:
/// its opcode and how many bytes it spans (the payload is bytes `8..`).
pub open spec fn spec_read_frame(buf: Seq<u8>) -> Option<(u32, nat)> {
    if buf.len() < 8 {
        None
    } else {
        let op = from_le32(buf.subrange(0, 4));
        let len = from_le32(buf.subrange(4, 8));
        if buf.len() < 8 + len {
            None
        } else {
            Some((op as u32, 8 + len))
        }
    }
}

fn read_le32(buf: &[u8], at: usize) -> (x: u32)
    requires
        at + 4 <= buf@.len(),
    ensures
        x as nat == from_le32(buf@.subrange(at as int, at + 4)),
{
    let b0 = buf[at] as u32;
    let b1 = buf[at + 1] as u32;
    let b2 = buf[at + 2] as u32;
    let b3 = buf[at + 3] as u32;
    proof {
        assert(b0 < 256 && b1 < 256 && b2 < 256 && b3 < 256);
        assert(b0 | (b1 << 8) | (b2 << 16) | (b3 << 24) == b0 + 256 * b1 + 65536 * b2 + 16777216 * b3)
            by (bit_vector)
            requires
                b0 < 256 && b1 < 256 && b2 < 256 && b3 < 256,
        ;
    }
    b0 | (b1 << 8) | (b2 << 16) | (b3 << 24)
}

/// The header of the first frame in `buf`: `None` if the buffer doesn't yet
/// hold a complete frame, else the opcode and how many bytes the frame spans
/// (its payload is the bytes from 8 up to that length).
pub fn frame_header(buf: &[u8]) -> (r: Option<(u32, usize)>)
    ensures
        match spec_read_frame(buf@) {
            Some((op, n)) => r matches Some((o, k)) && o == op && k as nat == n && 8 <= n <= buf@.len(),
            None => r is None,
        },
{
    if buf.len() < 8 {
        return None;
    }
    let op = read_le32(buf, 0);
    let len = read_le32(buf, 4);
    if (buf.len() as u64) < 8 + len as u64 {
        return None;
    }
    Some((op, 8 + len as usize))
}

/// Encode one IPC frame: `u32 LE opcode | u32 LE length | JSON payload`.
pub fn frame(op: u32, payload: &JsonValue) -> (out: Vec<u8>)
    ensures
        out@ == spec_frame(op, spec_json_encode(*payload)),
{
    let body = json_encode(payload);
    frame_bytes(op, body.as_slice())
}

/// The wire bytes of an outgoing frame.
pub fn encode(o: &Outgoing) -> (out: Vec<u8>)
    ensures
        out@ == spec_frame(o.op, spec_json_encode(o.payload)),
{
    frame(o.op, &o.payload)
}

/// What reading the front of `buf` gives: nothing until a whole frame has
/// arrived; then its opcode, its decoded JSON payload and how many bytes it
/// spans, or an error when the payload is no JSON.
pub open spec fn spec_read_frame_json(buf: Seq<u8>) -> Result<Option<(u32, JsonValue, nat)>, Seq<char>> {
    match spec_read_frame(buf) {
        None => Ok(None),
        Some((op, n)) => match spec_json_decode(buf.subrange(8, n as int)) {
            Ok(v) => Ok(Some((op, v, n))),
            Err(e) => Err("json: "@ + e),
        },
    }
}

/// Try to read one frame from the front of `buf`. `Ok(None)` if the buffer
/// doesn't yet hold a complete frame (the caller reads more), else
/// `Ok(Some((op, value, consumed)))` with how many bytes to drain; an error
/// when the payload is not JSON.
pub fn read_frame(buf: &[u8]) -> (r: Result<Option<(u32, JsonValue, usize)>, RpcError>)
    ensures
        match (r, spec_read_frame_json(buf@)) {
            (Ok(None), Ok(None)) => true,
            (Ok(Some((op, v, n))), Ok(Some((op2, w, m)))) => op == op2 && v == w && n == m,
            (Err(e), Err(msg)) => e.0@ == msg,
            _ => false,
        },
{
    let (op, n) = match frame_header(buf) {
        None => return Ok(None),
        Some(h) => h,
    };
    let mut body: Vec<u8> = Vec::new();
    let mut i: usize = 8;
    while i < n
        invariant
            8 <= i <= n,
            n <= buf@.len(),
            body@ == buf@.subrange(8, i as int),
        decreases n - i,
    {
        body.push(buf[i]);
        i = i + 1;
        assert(body@ =~= buf@.subrange(8, i as int));
    }
    match json_decode(body.as_slice()) {
        Ok(v) => Ok(Some((op, v, n))),
        Err(e) => {
            let mut msg = String::from_str("json: ");
            msg.append(e.as_str());
            Err(RpcError(msg))
        },
    }
}

/// Reading back a frame gives its opcode and exactly its length, so the
/// payload bytes are the ones framed (for payloads a 32-bit length can count).
pub proof fn lemma_frame_round_trip(op: u32, body: Seq<u8>, rest: Seq<u8>)
    requires
        body.len() <= u32::MAX,
    ensures
        spec_read_frame(spec_frame(op, body) + rest) == Some((op, 8 + body.len())),
        (spec_frame(op, body) + rest).subrange(8, 8 + body.len() as int) == body,
{
    let f = spec_frame(op, body) + rest;
    assert(f.subrange(0, 4) =~= le32(op));
    assert(f.subrange(4, 8) =~= le32(body.len() as u32));
    lemma_le32_round_trip(op);
    lemma_le32_round_trip(body.len() as u32);
    assert(f.subrange(8, 8 + body.len() as int) =~= body);
}

/// A frame is read back only once all of it has arrived: every proper
/// prefix of a frame reads as incomplete.
pub proof fn lemma_frame_prefix_incomplete(op: u32, body: Seq<u8>, k: int)
    requires
        body.len() <= u32::MAX,
        0 <= k < spec_frame(op, body).len(),
    ensures
        spec_read_frame(spec_frame(op, body).take(k)) is None,
{
    let f = spec_frame(op, body);
    if k >= 8 {
        assert(f.take(k).subrange(4, 8) =~= le32(body.len() as u32));
        lemma_le32_round_trip(body.len() as u32);
    }
}

/// Framing a JSON value and reading the frame back (whatever follows it in
/// the buffer) gives the opcode, what decoding the written payload gives, and
/// the frame's length; every proper prefix reads as incomplete.
pub proof fn lemma_json_frame_round_trip(op: u32, v: JsonValue, rest: Seq<u8>)
    requires
        spec_json_encode(v).len() <= u32::MAX,
    ensures
        ({
            let body = spec_json_encode(v);
            let f = spec_frame(op, body);
            &&& spec_read_frame_json(f + rest) == match spec_json_decode(body) {
                Ok(w) => Ok(Some((op, w, 8 + body.len()))),
                Err(e) => Err("json: "@ + e),
            }
            &&& forall|k: int| 0 <= k < f.len() ==> #[trigger] spec_read_frame_json(f.take(k)) == Ok::<
                Option<(u32, JsonValue, nat)>,
                Seq<char>,
            >(None)
        }),
{
    let body = spec_json_encode(v);
    let f = spec_frame(op, body);
    lemma_frame_round_trip(op, body, rest);
    assert forall|k: int| 0 <= k < f.len() implies #[trigger] spec_read_frame_json(f.take(k)) == Ok::<
        Option<(u32, JsonValue, nat)>,
        Seq<char>,
    >(None) by {
        lemma_frame_prefix_incomplete(op, body, k);
    }
}

proof fn lemma_le32_round_trip(x: u32)
    ensures
        from_le32(le32(x)) == x,
{
    assert((x % 256) + 256 * ((x / 256) % 256) + 65536 * ((x / 65536) % 256) + 16777216 * ((x
        / 16777216) % 256) == x) by (bit_vector);
}

/// True when the bytes of an outgoing frame carry the handshake opcode.
pub fn is_handshake(bytes: &[u8]) -> (b: bool)
    ensures
        b == (bytes@.len() >= 4 && from_le32(bytes@.subrange(0, 4)) == OP_HANDSHAKE),
{
    bytes.len() >= 4 && read_le32(bytes, 0) == OP_HANDSHAKE
}

// ---------------------------------------------------------------------------
// Command builders
// ---------------------------------------------------------------------------

/// A frame to send: its opcode and its JSON payload (encoded at the socket).
#[derive(Debug, PartialEq, Eq)]
pub struct Outgoing {
    pub op: u32,
    pub payload: JsonValue,
}

/// A member `key` holding the string `val`.
pub open spec fn is_str_member(m: (String, JsonValue), key: Seq<char>, val: Seq<char>) -> bool {
    m.0@ == key && (m.1 matches JsonValue::String(s) && s@ == val)
}

/// An object whose members are exactly one string member `key: val`.
pub open spec fn is_one_str_object(v: JsonValue, key: Seq<char>, val: Seq<char>) -> bool {
    v matches JsonValue::Object(es) && es@.len() == 1 && is_str_member(es@[0], key, val)
}

/// An object with no members.
pub open spec fn is_empty_object(v: JsonValue) -> bool {
    v matches JsonValue::Object(es) && es@.len() == 0
}

/// A command frame: an object of exactly `cmd`, `args`, `nonce`, in that
/// order, with `args` satisfying `args_ok`.
pub open spec fn is_command(o: Outgoing, cmd: Seq<char>, args_ok: spec_fn(JsonValue) -> bool, nonce: Seq<char>) -> bool {
    &&& o.op == OP_FRAME
    &&& o.payload matches JsonValue::Object(es)
    &&& es@.len() == 3
    &&& is_str_member(es@[0], "cmd"@, cmd)
    &&& es@[1].0@ == "args"@ && args_ok(es@[1].1)
    &&& is_str_member(es@[2], "nonce"@, nonce)
}

fn member(key: &str, v: JsonValue) -> (m: (String, JsonValue))
    ensures
        m.0@ == key@,
        m.1 == v,
{
    (key.to_owned(), v)
}

fn str_value(s: &str) -> (v: JsonValue)
    ensures
        v matches JsonValue::String(t) && t@ == s@,
{
    JsonValue::String(s.to_owned())
}

fn decimal_value(n: u64) -> (v: JsonValue)
    ensures
        v matches JsonValue::String(t) && t@ == decimal(n as nat),
{
    JsonValue::String(crate::text::to_decimal(n))
}

/// Opening handshake (op 0): `{"v": 1, "client_id": "<id>"}` — the id as a
/// string, not a number.
pub fn handshake(client_id: ClientId) -> (o: Outgoing)
    ensures
        o.op == OP_HANDSHAKE,
        o.payload matches JsonValue::Object(es) && es@.len() == 2 && es@[0].0@ == "v"@ && es@[0].1
            == JsonValue::Number(JsonNumber::PosInt(1)) && is_str_member(
            es@[1],
            "client_id"@,
            decimal(client_id.0 as nat),
        ),
{
    let mut es: Vec<(String, JsonValue)> = Vec::new();
    es.push(member("v", JsonValue::Number(JsonNumber::PosInt(1))));
    es.push(member("client_id", decimal_value(client_id.0)));
    Outgoing { op: OP_HANDSHAKE, payload: JsonValue::Object(es) }
}

/// A command frame `{"cmd", "args", "nonce"}`.
pub fn command(cmd: &str, args: JsonValue, nonce: &str) -> (o: Outgoing)
    ensures
        o.op == OP_FRAME,
        o.payload matches JsonValue::Object(es) && es@.len() == 3 && is_str_member(es@[0], "cmd"@, cmd@)
            && es@[1].0@ == "args"@ && es@[1].1 == args && is_str_member(es@[2], "nonce"@, nonce@),
{
    let mut es: Vec<(String, JsonValue)> = Vec::new();
    es.push(member("cmd", str_value(cmd)));
    es.push(member("args", args));
    es.push(member("nonce", str_value(nonce)));
    Outgoing { op: OP_FRAME, payload: JsonValue::Object(es) }
}

fn empty_object() -> (v: JsonValue)
    ensures
        is_empty_object(v),
{
    JsonValue::Object(Vec::new())
}

/// `GET_GUILDS` with empty arguments.
pub fn get_guilds(nonce: &str) -> (o: Outgoing)
    ensures
        is_command(o, "GET_GUILDS"@, |a: JsonValue| is_empty_object(a), nonce@),
{
    command("GET_GUILDS", empty_object(), nonce)
}

/// `GET_SELECTED_VOICE_CHANNEL` with empty arguments.
pub fn get_selected_voice_channel(nonce: &str) -> (o: Outgoing)
    ensures
        is_command(o, "GET_SELECTED_VOICE_CHANNEL"@, |a: JsonValue| is_empty_object(a), nonce@),
{
    command("GET_SELECTED_VOICE_CHANNEL", empty_object(), nonce)
}

/// `GET_CHANNELS` for one guild: `args = {"guild_id": "<id>"}`.
pub fn get_channels(guild: GuildId, nonce: &str) -> (o: Outgoing)
    ensures
        is_command(
            o,
            "GET_CHANNELS"@,
            |a: JsonValue| is_one_str_object(a, "guild_id"@, decimal(guild.0 as nat)),
            nonce@,
        ),
{
    let mut args: Vec<(String, JsonValue)> = Vec::new();
    args.push(member("guild_id", decimal_value(guild.0)));
    command("GET_CHANNELS", JsonValue::Object(args), nonce)
}

/// The `SELECT_VOICE_CHANNEL` arguments: `channel_id` is the id as a string to
/// join, or null to leave; `force` is true.
pub open spec fn is_select_args(a: JsonValue, channel: Option<ChannelId>) -> bool {
    &&& a matches JsonValue::Object(es)
    &&& es@.len() == 2
    &&& es@[0].0@ == "channel_id"@
    &&& match channel {
        Some(c) => (es@[0].1 matches JsonValue::String(s) && s@ == decimal(c.0 as nat)),
        None => es@[0].1 == JsonValue::Null,
    }
    &&& es@[1].0@ == "force"@ && es@[1].1 == JsonValue::Bool(true)
}

/// Join (`Some`) or leave (`None` → `channel_id: null`) a voice channel.
pub fn select_voice(channel: Option<ChannelId>, nonce: &str) -> (o: Outgoing)
    ensures
        is_command(o, "SELECT_VOICE_CHANNEL"@, |a: JsonValue| is_select_args(a, channel), nonce@),
{
    let id = match channel {
        Some(c) => decimal_value(c.0),
        None => JsonValue::Null,
    };
    let mut args: Vec<(String, JsonValue)> = Vec::new();
    args.push(member("channel_id", id));
    args.push(member("force", JsonValue::Bool(true)));
    command("SELECT_VOICE_CHANNEL", JsonValue::Object(args), nonce)
}

/// Subscribe to one voice event type for a specific channel:
/// `{"cmd": "SUBSCRIBE", "evt": evt, "args": {"channel_id": "<id>"}, "nonce"}`.
pub fn subscribe_voice_events(channel: ChannelId, evt: &str, nonce: &str) -> (o: Outgoing)
    ensures
        o.op == OP_FRAME,
        o.payload matches JsonValue::Object(es) && es@.len() == 4 && is_str_member(
            es@[0],
            "cmd"@,
            "SUBSCRIBE"@,
        ) && is_str_member(es@[1], "evt"@, evt@) && es@[2].0@ == "args"@ && is_one_str_object(
            es@[2].1,
            "channel_id"@,
            decimal(channel.0 as nat),
        ) && is_str_member(es@[3], "nonce"@, nonce@),
{
    let mut args: Vec<(String, JsonValue)> = Vec::new();
    args.push(member("channel_id", decimal_value(channel.0)));
    let mut es: Vec<(String, JsonValue)> = Vec::new();
    es.push(member("cmd", str_value("SUBSCRIBE")));
    es.push(member("evt", str_value(evt)));
    es.push(member("args", JsonValue::Object(args)));
    es.push(member("nonce", str_value(nonce)));
    Outgoing { op: OP_FRAME, payload: JsonValue::Object(es) }
}

/// Where Discord's `n`th IPC socket lives (Discord takes the first free slot
/// of `discord-ipc-0` .. `discord-ipc-9`).
pub fn ipc_socket_path(runtime: &str, n: u64) -> (p: String)
    ensures
        p@ == path_join(runtime@, "discord-ipc-"@ + decimal(n as nat)),
{
    let mut name = String::from_str("discord-ipc-");
    push_decimal(&mut name, n);
    let mut p = runtime.to_owned();
    push_component(&mut p, name.as_str());
    p
}

/// The voice events a channel subscription asks for, in the order sent.
pub open spec fn voice_subscription_events() -> Seq<Seq<char>> {
    seq![
        "VOICE_STATE_CREATE"@,
        "VOICE_STATE_UPDATE"@,
        "VOICE_STATE_DELETE"@,
        "SPEAKING_START"@,
        "SPEAKING_STOP"@,
    ]
}

/// The events to `SUBSCRIBE` to for one voice channel's roster and speaking
/// state.
pub fn voice_events() -> (v: Vec<&'static str>)
    ensures
        v@.map_values(|e: &str| e@) == voice_subscription_events(),
{
    let v = vec![
        "VOICE_STATE_CREATE",
        "VOICE_STATE_UPDATE",
        "VOICE_STATE_DELETE",
        "SPEAKING_START",
        "SPEAKING_STOP",
    ];
    assert(v@.map_values(|e: &str| e@) =~= voice_subscription_events());
    v
}

/// The nonce `<prefix><n>` used to correlate a request with its reply.
pub fn nonce(prefix: &str, n: u64) -> (s: String)
    ensures
        s@ == prefix@ + decimal(n as nat),
{
    let mut s = prefix.to_owned();
    push_decimal(&mut s, n);
    s
}

// ---------------------------------------------------------------------------
// Parsers
// ---------------------------------------------------------------------------

/// The values `f` keeps from `s`, in order.
pub open spec fn filter_map_json<B>(s: Seq<JsonValue>, f: spec_fn(JsonValue) -> Option<B>) -> Seq<B>
    decreases s.len(),
{
    if s.len() == 0 {
        seq![]
    } else {
        filter_map_json(s.drop_last(), f) + match f(s.last()) {
            Some(b) => seq![b],
            None => seq![],
        }
    }
}

/// The member `key` of an optional object.
pub open spec fn get_in(v: Option<JsonValue>, key: Seq<char>) -> Option<JsonValue> {
    match v {
        Some(x) => spec_get(x, key),
        None => None,
    }
}

/// A decimal id held as a JSON string.
pub open spec fn id_field(v: Option<JsonValue>) -> Option<u64> {
    match spec_as_str(v) {
        Some(t) => match spec_parse_unsigned(t, 10, u64::MAX as nat) {
            Some(n) => Some(n as u64),
            None => None,
        },
        None => None,
    }
}

/// A guild from one entry of a `GET_GUILDS` list: it needs a string `id` that
/// parses as a snowflake and a string `name`; a string `icon` is kept.
pub open spec fn guild_of(g: JsonValue) -> Option<SpecGuild> {
    match (id_field(spec_get(g, "id"@)), spec_as_str(spec_get(g, "name"@))) {
        (Some(id), Some(name)) => Some(
            SpecGuild { id: GuildId(id), name, icon: spec_as_str(spec_get(g, "icon"@)) },
        ),
        _ => None,
    }
}

/// The guilds of a `GET_GUILDS` response's `data`: entries of its `guilds`
/// array that are well formed, in order (none without such an array).
pub open spec fn spec_parse_guilds(data: JsonValue) -> Seq<SpecGuild> {
    match spec_get(data, "guilds"@) {
        Some(JsonValue::Array(a)) => filter_map_json(a@, |g: JsonValue| guild_of(g)),
        _ => seq![],
    }
}

fn parse_id(v: Option<&JsonValue>) -> (r: Option<u64>)
    ensures
        r == id_field(match v { Some(x) => Some(*x), None => None }),
{
    match as_str(v) {
        Some(t) => parse_u64(t),
        None => None,
    }
}

fn clone_str_field(v: Option<&JsonValue>) -> (r: Option<String>)
    ensures
        match r {
            Some(s) => spec_as_str(match v { Some(x) => Some(*x), None => None }) == Some(s@),
            None => spec_as_str(match v { Some(x) => Some(*x), None => None }) is None,
        },
{
    match as_str(v) {
        Some(t) => Some(t.to_owned()),
        None => None,
    }
}

fn guild_from(g: &JsonValue) -> (r: Option<Guild>)
    ensures
        match r {
            Some(x) => guild_of(*g) == Some(x@),
            None => guild_of(*g) is None,
        },
{
    let id = parse_id(get(g, "id"));
    let name = clone_str_field(get(g, "name"));
    match (id, name) {
        (Some(id), Some(name)) => {
            let icon = match clone_str_field(get(g, "icon")) {
                Some(s) => Some(AssetHash(s)),
                None => None,
            };
            Some(Guild { id: GuildId(id), name, icon })
        },
        _ => None,
    }
}

#[verifier::spinoff_prover]
#[verifier::rlimit(40)]
fn parse_guild_list(arr: &Vec<JsonValue>) -> (r: Vec<Guild>)
    ensures
        guilds_view(r@) == filter_map_json(arr@, |g: JsonValue| guild_of(g)),
{
    let ghost a = arr@;
    let ghost f = |g: JsonValue| guild_of(g);
    let mut out: Vec<Guild> = Vec::new();
    let mut i: usize = 0;
    assert(a.take(0) =~= Seq::<JsonValue>::empty());
    while i < arr.len()
        invariant
            a == arr@,
            f == (|g: JsonValue| guild_of(g)),
            i <= arr.len(),
            guilds_view(out@) == filter_map_json(a.take(i as int), f),
        decreases arr.len() - i,
    {
        let ghost t = a.take(i + 1);
        assert(t.drop_last() =~= a.take(i as int));
        assert(t.last() == arr@[i as int]);
        let ghost before = guilds_view(out@);
        match guild_from(&arr[i]) {
            Some(g) => {
                out.push(g);
                assert(guilds_view(out@) =~= before + seq![out@[out@.len() - 1]@]);
            },
            None => {
                assert(before + Seq::<SpecGuild>::empty() =~= before);
            },
        }
        i = i + 1;
    }
    assert(a.take(arr.len() as int) =~= a);
    out
}

/// Parse a `GET_GUILDS` response's `data` object into domain guilds.
pub fn parse_guilds(data: &JsonValue) -> (r: Vec<Guild>)
    ensures
        guilds_view(r@) == spec_parse_guilds(*data),
{
    match get(data, "guilds") {
        Some(JsonValue::Array(arr)) => parse_guild_list(arr),
        _ => {
            assert(guilds_view(Seq::<Guild>::empty()) =~= Seq::<SpecGuild>::empty());
            Vec::new()
        },
    }
}

/// A voice channel from one entry of a `GET_CHANNELS` list: its numeric
/// `type` must be a voice type (2 or 13) whose kind is in `accept`; it needs
/// a string `id` that parses and a string `name`.
pub open spec fn channel_of(c: JsonValue, accept: Seq<VoiceKind>) -> Option<SpecVoiceChannel> {
    match spec_as_u64(spec_get(c, "type"@)) {
        Some(t) => match (if t < 256 {
            spec_kind_of_type(t as u8)
        } else {
            None
        }) {
            Some(kind) => if accept.contains(kind) {
                match (id_field(spec_get(c, "id"@)), spec_as_str(spec_get(c, "name"@))) {
                    (Some(id), Some(name)) => Some(SpecVoiceChannel { id: ChannelId(id), name, kind }),
                    _ => None,
                }
            } else {
                None
            },
            None => None,
        },
        None => None,
    }
}

/// The voice channels of a `GET_CHANNELS` response's `data`: entries of its
/// `channels` array that are voice channels of an accepted kind, in order.
pub open spec fn spec_parse_voice_channels(data: JsonValue, accept: Seq<VoiceKind>) -> Seq<SpecVoiceChannel> {
    match spec_get(data, "channels"@) {
        Some(JsonValue::Array(a)) => filter_map_json(a@, |c: JsonValue| channel_of(c, accept)),
        _ => seq![],
    }
}

fn slice_contains_kind(accept: &[VoiceKind], kind: VoiceKind) -> (b: bool)
    ensures
        b == accept@.contains(kind),
{
    let mut i: usize = 0;
    while i < accept.len()
        invariant
            i <= accept@.len(),
            forall|j: int| 0 <= j < i ==> accept@[j] != kind,
        decreases accept.len() - i,
    {
        if accept[i] == kind {
            return true;
        }
        i = i + 1;
    }
    false
}

fn channel_from(c: &JsonValue, accept: &[VoiceKind]) -> (r: Option<VoiceChannel>)
    ensures
        match r {
            Some(x) => channel_of(*c, accept@) == Some(x@),
            None => channel_of(*c, accept@) is None,
        },
{
    let t = match as_u64(get(c, "type")) {
        Some(t) => t,
        None => return None,
    };
    if t > 255 {
        return None;
    }
    let kind = match VoiceKind::from_discord_type(t as u8) {
        Some(k) => k,
        None => return None,
    };
    if !slice_contains_kind(accept, kind) {
        return None;
    }
    let id = parse_id(get(c, "id"));
    let name = clone_str_field(get(c, "name"));
    match (id, name) {
        (Some(id), Some(name)) => Some(VoiceChannel { id: ChannelId(id), name, kind }),
        _ => None,
    }
}

#[verifier::spinoff_prover]
#[verifier::rlimit(40)]
fn parse_channel_list(arr: &Vec<JsonValue>, accept: &[VoiceKind]) -> (r: Vec<VoiceChannel>)
    ensures
        channels_view(r@) == filter_map_json(arr@, |c: JsonValue| channel_of(c, accept@)),
{
    let ghost a = arr@;
    let ghost f = |c: JsonValue| channel_of(c, accept@);
    let mut out: Vec<VoiceChannel> = Vec::new();
    let mut i: usize = 0;
    assert(a.take(0) =~= Seq::<JsonValue>::empty());
    while i < arr.len()
        invariant
            a == arr@,
            f == (|c: JsonValue| channel_of(c, accept@)),
            i <= arr.len(),
            channels_view(out@) == filter_map_json(a.take(i as int), f),
        decreases arr.len() - i,
    {
        let ghost t = a.take(i + 1);
        assert(t.drop_last() =~= a.take(i as int));
        assert(t.last() == arr@[i as int]);
        let ghost before = channels_view(out@);
        match channel_from(&arr[i], accept) {
            Some(c) => {
                out.push(c);
                assert(channels_view(out@) =~= before + seq![out@[out@.len() - 1]@]);
            },
            None => {
                assert(before + Seq::<SpecVoiceChannel>::empty() =~= before);
            },
        }
        i = i + 1;
    }
    assert(a.take(arr.len() as int) =~= a);
    out
}

/// Parse a `GET_CHANNELS` response's `data` object, keeping ONLY voice
/// channels whose kind is in `accept`. This is the one place "what is a voice
/// channel" lives — text channels never cross this boundary.
pub fn parse_voice_channels(data: &JsonValue, accept: &[VoiceKind]) -> (r: Vec<VoiceChannel>)
    ensures
        channels_view(r@) == spec_parse_voice_channels(*data, accept@),
{
    match get(data, "channels") {
        Some(JsonValue::Array(arr)) => parse_channel_list(arr, accept),
        _ => {
            assert(channels_view(Seq::<VoiceChannel>::empty()) =~= Seq::<SpecVoiceChannel>::empty());
            Vec::new()
        },
    }
}

proof fn lemma_filter_map_kinds(
    s: Seq<JsonValue>,
    f: spec_fn(JsonValue) -> Option<SpecVoiceChannel>,
    accept: Seq<VoiceKind>,
)
    requires
        forall|c: JsonValue| (#[trigger] f(c)) matches Some(ch) ==> accept.contains(ch.kind),
    ensures
        forall|i: int|
            0 <= i < filter_map_json(s, f).len() ==> accept.contains(
                (#[trigger] filter_map_json(s, f)[i]).kind,
            ),
    decreases s.len(),
{
    if s.len() > 0 {
        lemma_filter_map_kinds(s.drop_last(), f, accept);
        let prefix = filter_map_json(s.drop_last(), f);
        let whole = filter_map_json(s, f);
        assert forall|i: int| 0 <= i < whole.len() implies accept.contains((#[trigger] whole[i]).kind) by {
            if i < prefix.len() {
                assert(whole[i] == prefix[i]);
            } else {
                assert(f(s.last()) matches Some(ch) && whole[i] == ch);
            }
        }
    }
}

/// Text channels never cross this boundary: every channel parsed from a
/// `GET_CHANNELS` reply is a voice kind that the configuration accepts.
pub proof fn lemma_only_accepted_voice_channels(data: JsonValue, accept: Seq<VoiceKind>)
    ensures
        forall|i: int|
            0 <= i < spec_parse_voice_channels(data, accept).len() ==> accept.contains(
                (#[trigger] spec_parse_voice_channels(data, accept)[i]).kind,
            ),
{
    match spec_get(data, "channels"@) {
        Some(JsonValue::Array(a)) => {
            let f = |c: JsonValue| channel_of(c, accept);
            assert(forall|c: JsonValue| (#[trigger] f(c)) matches Some(ch) ==> accept.contains(ch.kind));
            lemma_filter_map_kinds(a@, f, accept);
        },
        _ => {},
    }
}

/// `SPEAKING_START` / `SPEAKING_STOP` with a channel and user id:
/// `(channel, user, speaking)`.
pub open spec fn spec_parse_speaking(evt: Seq<char>, data: JsonValue) -> Option<(ChannelId, UserId, bool)> {
    let speaking = if evt == "SPEAKING_START"@ {
        Some(true)
    } else if evt == "SPEAKING_STOP"@ {
        Some(false)
    } else {
        None
    };
    match (speaking, id_field(spec_get(data, "channel_id"@)), id_field(spec_get(data, "user_id"@))) {
        (Some(s), Some(c), Some(u)) => Some((ChannelId(c), UserId(u), s)),
        _ => None,
    }
}

/// Parse a `SPEAKING_START` / `SPEAKING_STOP` dispatch into
/// `(channel, user, speaking)`.
pub fn parse_speaking(evt: &str, data: &JsonValue) -> (r: Option<(ChannelId, UserId, bool)>)
    ensures
        r == spec_parse_speaking(evt@, *data),
{
    let e = chars_of(evt);
    let speaking = if chars_eq_str(&e, "SPEAKING_START") {
        true
    } else if chars_eq_str(&e, "SPEAKING_STOP") {
        false
    } else {
        return None;
    };
    let ch = match parse_id(get(data, "channel_id")) {
        Some(c) => c,
        None => return None,
    };
    let user = match parse_id(get(data, "user_id")) {
        Some(u) => u,
        None => return None,
    };
    Some((ChannelId(ch), UserId(user), speaking))
}

/// The roster entry a `VOICE_STATE_*` dispatch describes: it needs a
/// `channel_id` and a `user.id`; the name is the `nick`, else
/// `user.username`, else empty; mute/deaf come from `voice_state` (default
/// false). Such an event surfaces as a one-member roster update.
pub open spec fn voice_state_event(data: JsonValue) -> Option<SpecVoiceEvent> {
    let user = spec_get(data, "user"@);
    match (id_field(spec_get(data, "channel_id"@)), id_field(get_in(user, "id"@))) {
        (Some(c), Some(u)) => {
            let name = match spec_as_str(spec_get(data, "nick"@)) {
                Some(n) => n,
                None => match spec_as_str(get_in(user, "username"@)) {
                    Some(n) => n,
                    None => seq![],
                },
            };
            let vs = spec_get(data, "voice_state"@);
            let member = SpecVoiceMember {
                user: UserId(u),
                name,
                avatar: None,
                speaking: false,
                muted: match spec_as_bool(get_in(vs, "mute"@)) {
                    Some(b) => b,
                    None => false,
                },
                deafened: match spec_as_bool(get_in(vs, "deaf"@)) {
                    Some(b) => b,
                    None => false,
                },
            };
            Some(SpecVoiceEvent::Members { channel: ChannelId(c), members: seq![member] })
        },
        _ => None,
    }
}

/// The voice event a subscribed dispatch carries: a speaking change, or a
/// `VOICE_STATE_*` roster update; anything else is unrelated.
pub open spec fn spec_parse_voice_event(evt: Seq<char>, data: JsonValue) -> Option<SpecVoiceEvent> {
    match spec_parse_speaking(evt, data) {
        Some((channel, user, speaking)) => Some(SpecVoiceEvent::SpeakingChanged { channel, user, speaking }),
        None => if seq_starts_with(evt, "VOICE_STATE_"@) {
            voice_state_event(data)
        } else {
            None
        },
    }
}

/// A `VOICE_STATE_*` dispatch naming a channel and a user is a one-member
/// roster update for that channel: the member is that user, not speaking, with
/// no avatar; muted exactly when `voice_state.mute` is `true` and deafened
/// exactly when `voice_state.deaf` is `true`.
pub proof fn lemma_voice_state_member(evt: Seq<char>, data: JsonValue, c: u64, u: u64)
    requires
        seq_starts_with(evt, "VOICE_STATE_"@),
        id_field(spec_get(data, "channel_id"@)) == Some(c),
        id_field(get_in(spec_get(data, "user"@), "id"@)) == Some(u),
    ensures
        ({
            let vs = spec_get(data, "voice_state"@);
            &&& spec_parse_voice_event(evt, data) matches Some(SpecVoiceEvent::Members { channel, members })
            &&& channel == ChannelId(c)
            &&& members.len() == 1
            &&& members[0].user == UserId(u)
            &&& !members[0].speaking
            &&& members[0].avatar is None
            &&& members[0].muted == (get_in(vs, "mute"@) == Some(JsonValue::Bool(true)))
            &&& members[0].deafened == (get_in(vs, "deaf"@) == Some(JsonValue::Bool(true)))
        }),
{
    assert(spec_parse_speaking(evt, data) is None) by {
        reveal_strlit("VOICE_STATE_");
        reveal_strlit("SPEAKING_START");
        reveal_strlit("SPEAKING_STOP");
        assert(evt.take(12)[0] == "VOICE_STATE_"@[0]);
        assert(evt[0] == 'V');
        if evt == "SPEAKING_START"@ {
            assert("SPEAKING_START"@[0] == 'S');
        }
        if evt == "SPEAKING_STOP"@ {
            assert("SPEAKING_STOP"@[0] == 'S');
        }
    }
    assert(spec_parse_voice_event(evt, data) == voice_state_event(data));
    let vs = spec_get(data, "voice_state"@);
    assert(match spec_as_bool(get_in(vs, "mute"@)) {
        Some(b) => b,
        None => false,
    } == (get_in(vs, "mute"@) == Some(JsonValue::Bool(true))));
    assert(match spec_as_bool(get_in(vs, "deaf"@)) {
        Some(b) => b,
        None => false,
    } == (get_in(vs, "deaf"@) == Some(JsonValue::Bool(true))));
}

fn get_opt<'a>(v: Option<&'a JsonValue>, key: &str) -> (r: Option<&'a JsonValue>)
    ensures
        match r {
            Some(x) => get_in(match v { Some(y) => Some(*y), None => None }, key@) == Some(*x),
            None => get_in(match v { Some(y) => Some(*y), None => None }, key@) is None,
        },
{
    match v {
        Some(x) => get(x, key),
        None => None,
    }
}

/// Map a dispatch event + data into a `VoiceEvent`, or `None` if unrelated.
#[verifier::spinoff_prover]
#[verifier::rlimit(40)]
pub fn parse_voice_event(evt: &str, data: &JsonValue) -> (r: Option<VoiceEvent>)
    ensures
        match r {
            Some(e) => spec_parse_voice_event(evt@, *data) == Some(e@),
            None => spec_parse_voice_event(evt@, *data) is None,
        },
{
    if let Some((channel, user, speaking)) = parse_speaking(evt, data) {
        return Some(VoiceEvent::SpeakingChanged { channel, user, speaking });
    }
    if !starts_with(evt, "VOICE_STATE_") {
        return None;
    }
    let user = get(data, "user");
    let channel = parse_id(get(data, "channel_id"));
    let uid = parse_id(get_opt(user, "id"));
    match (channel, uid) {
        (Some(c), Some(u)) => {
            let name = match clone_str_field(get(data, "nick")) {
                Some(n) => n,
                None => match clone_str_field(get_opt(user, "username")) {
                    Some(n) => n,
                    None => String::new(),
                },
            };
            let vs = get(data, "voice_state");
            let muted = match as_bool(get_opt(vs, "mute")) {
                Some(b) => b,
                None => false,
            };
            let deafened = match as_bool(get_opt(vs, "deaf")) {
                Some(b) => b,
                None => false,
            };
            let member = VoiceMember { user: UserId(u), name, avatar: None, speaking: false, muted, deafened };
            let mut members: Vec<VoiceMember> = Vec::new();
            members.push(member);
            let ev = VoiceEvent::Members { channel: ChannelId(c), members };
            proof {
                assert(members_view(members@) =~= seq![members@[0]@]);
            }
            Some(ev)
        },
        _ => None,
    }
}

// ---------------------------------------------------------------------------
// Routing incoming frames and replies
// ---------------------------------------------------------------------------

/// Where an incoming frame goes.
#[derive(Debug, PartialEq, Eq)]
pub enum FrameRoute {
    /// The `READY` dispatch answering the handshake.
    Ready,
    /// A subscribed voice event.
    Voice(VoiceEvent),
    /// The reply to the request with this nonce.
    Reply(String),
    /// Nothing waits for it.
    Ignore,
}

/// The mathematical value of a [`FrameRoute`].
pub enum SpecFrameRoute {
    Ready,
    Voice(SpecVoiceEvent),
    Reply(Seq<char>),
    Ignore,
}

impl View for FrameRoute {
    type V = SpecFrameRoute;

    open spec fn view(&self) -> SpecFrameRoute {
        match self {
            FrameRoute::Ready => SpecFrameRoute::Ready,
            FrameRoute::Voice(e) => SpecFrameRoute::Voice(e@),
            FrameRoute::Reply(n) => SpecFrameRoute::Reply(n@),
            FrameRoute::Ignore => SpecFrameRoute::Ignore,
        }
    }
}

/// The routing of one decoded frame: the `READY` dispatch (op 1, no nonce)
/// answers the handshake; another nonce-less event that is a voice event goes
/// to the subscribers; a frame with a nonce is that request's reply; anything
/// else is dropped.
pub open spec fn spec_route_frame(op: u32, val: JsonValue) -> SpecFrameRoute {
    let evt = spec_as_str(spec_get(val, "evt"@));
    let nonce = spec_as_str(spec_get(val, "nonce"@));
    let data = match spec_get(val, "data"@) {
        Some(d) => d,
        None => JsonValue::Null,
    };
    if op == OP_FRAME && evt == Some("READY"@) && nonce is None {
        SpecFrameRoute::Ready
    } else if evt is Some && nonce is None && spec_parse_voice_event(evt->0, data) is Some {
        SpecFrameRoute::Voice(spec_parse_voice_event(evt->0, data)->0)
    } else {
        match nonce {
            Some(n) => SpecFrameRoute::Reply(n),
            None => SpecFrameRoute::Ignore,
        }
    }
}

/// Route one decoded frame: complete a pending request, or emit voice events.
pub fn route_frame(op: u32, val: &JsonValue) -> (r: FrameRoute)
    ensures
        r@ == spec_route_frame(op, *val),
{
    let evt = as_str(get(val, "evt"));
    let nonce = as_str(get(val, "nonce"));
    let null = JsonValue::Null;
    let data = match get(val, "data") {
        Some(d) => d,
        None => &null,
    };
    let is_ready = match evt {
        Some(e) => chars_eq_str(&chars_of(e), "READY"),
        None => false,
    };
    if op == OP_FRAME && is_ready && nonce.is_none() {
        return FrameRoute::Ready;
    }
    if let (Some(e), None) = (evt, nonce) {
        if let Some(ve) = parse_voice_event(e, data) {
            return FrameRoute::Voice(ve);
        }
    }
    match nonce {
        Some(n) => FrameRoute::Reply(n.to_owned()),
        None => FrameRoute::Ignore,
    }
}

/// The key a handshake waits under for its `READY` answer, which carries no
/// nonce.
pub open spec fn handshake_key() -> Seq<char> {
    "__handshake__"@
}

/// The key under which an outgoing frame waits for its reply: its nonce, or
/// the handshake key for the (nonce-less) handshake.
pub open spec fn spec_pending_key(bytes: Seq<u8>, nonce: Seq<char>) -> Seq<char> {
    if bytes.len() >= 4 && from_le32(bytes.subrange(0, 4)) == OP_HANDSHAKE {
        handshake_key()
    } else {
        nonce
    }
}

/// The key under which the request `bytes` (sent with `nonce`) waits.
pub fn pending_key(bytes: &[u8], nonce: &str) -> (k: String)
    ensures
        k@ == spec_pending_key(bytes@, nonce@),
{
    if is_handshake(bytes) {
        String::from_str("__handshake__")
    } else {
        nonce.to_owned()
    }
}

/// The waiting request a routed frame completes, by key.
pub open spec fn spec_route_key(r: SpecFrameRoute) -> Option<Seq<char>> {
    match r {
        SpecFrameRoute::Ready => Some(handshake_key()),
        SpecFrameRoute::Reply(n) => Some(n),
        _ => None,
    }
}

/// The key of the waiting request that a routed frame completes, if any.
pub fn route_key(r: &FrameRoute) -> (k: Option<String>)
    ensures
        match k {
            Some(s) => spec_route_key(r@) == Some(s@),
            None => spec_route_key(r@) is None,
        },
{
    match r {
        FrameRoute::Ready => Some(String::from_str("__handshake__")),
        FrameRoute::Reply(n) => Some(n.clone()),
        _ => None,
    }
}

/// Requests meet their replies: a handshake frame waits under the key that
/// the `READY` dispatch completes, and a command sent with nonce `n` waits
/// under the key that a reply carrying nonce `n` completes.
pub proof fn lemma_replies_find_their_request(
    op: u32,
    body: Seq<u8>,
    nonce: Seq<char>,
    reply_op: u32,
    reply: JsonValue,
)
    requires
        body.len() <= u32::MAX,
    ensures
        op == OP_HANDSHAKE ==> spec_pending_key(spec_frame(op, body), nonce) == spec_route_key(
            SpecFrameRoute::Ready,
        )->0,
        op != OP_HANDSHAKE && spec_as_str(spec_get(reply, "nonce"@)) == Some(nonce) ==> spec_route_key(
            spec_route_frame(reply_op, reply),
        ) == Some(nonce) && spec_pending_key(spec_frame(op, body), nonce) == nonce,
{
    lemma_frame_round_trip(op, body, seq![]);
    assert(spec_frame(op, body) + seq![] =~= spec_frame(op, body));
    assert(spec_frame(op, body).subrange(0, 4) =~= le32(op));
    lemma_le32_round_trip(op);
}

/// The message for an `ERROR` reply: Discord's `data.message`, else
/// "unknown".
pub open spec fn error_message(reply: JsonValue) -> Seq<char> {
    "discord error: "@ + match spec_as_str(get_in(spec_get(reply, "data"@), "message"@)) {
        Some(m) => m,
        None => "unknown"@,
    }
}

/// A reply's outcome: an `ERROR` event is an error; otherwise its `data`
/// (null when absent).
pub fn reply_data(reply: JsonValue) -> (r: Result<JsonValue, RpcError>)
    ensures
        spec_as_str(spec_get(reply, "evt"@)) == Some("ERROR"@) ==> (r matches Err(e) && e.0@ == error_message(reply)),
        spec_as_str(spec_get(reply, "evt"@)) != Some("ERROR"@) ==> r == Ok::<JsonValue, RpcError>(
            match spec_get(reply, "data"@) {
                Some(d) => d,
                None => JsonValue::Null,
            },
        ),
{
    let is_error = match as_str(get(&reply, "evt")) {
        Some(e) => chars_eq_str(&chars_of(e), "ERROR"),
        None => false,
    };
    if is_error {
        let mut msg = String::from_str("discord error: ");
        match as_str(get_opt(get(&reply, "data"), "message")) {
            Some(m) => msg.append(m),
            None => msg.append("unknown"),
        }
        return Err(RpcError(msg));
    }
    let ghost found = spec_get(reply, "data"@);
    match reply {
        JsonValue::Object(mut es) => {
            let mut i: usize = 0;
            while i < es.len()
                invariant
                    i <= es@.len(),
                    reply == JsonValue::Object(es),
                    spec_as_str(spec_get(reply, "evt"@)) != Some("ERROR"@),
                    found == spec_get(reply, "data"@),
                    forall|j: int| 0 <= j < i ==> (#[trigger] es@[j]).0@ != "data"@,
                decreases es.len() - i,
            {
                if chars_eq_str(&chars_of(es[i].0.as_str()), "data") {
                    proof {
                        let ii = i as int;
                        let w = choose|w: int|
                            0 <= w < es@.len() && (#[trigger] es@[w]).0@ == "data"@ && forall|j: int|
                                0 <= j < w ==> (#[trigger] es@[j]).0@ != "data"@;
                        assert(0 <= ii < es@.len() && es@[ii].0@ == "data"@ && forall|j: int|
                            0 <= j < ii ==> (#[trigger] es@[j]).0@ != "data"@);
                        if w < ii {
                            assert(es@[w].0@ != "data"@);
                        } else if w > ii {
                            assert(es@[ii].0@ != "data"@);
                        }
                    }
                    let (_, d) = es.remove(i);
                    return Ok(d);
                }
                i = i + 1;
            }
            Ok(JsonValue::Null)
        },
        _ => Ok(JsonValue::Null),
    }
}

/// The user id in a `READY` dispatch's data (`user.id`).
pub fn ready_user(data: &JsonValue) -> (r: Result<UserId, RpcError>)
    ensures
        match id_field(get_in(spec_get(*data, "user"@), "id"@)) {
            Some(u) => r == Ok::<UserId, RpcError>(UserId(u)),
            None => r matches Err(e) && e.0@ == "handshake READY missing user id"@,
        },
{
    match parse_id(get_opt(get(data, "user"), "id")) {
        Some(u) => Ok(UserId(u)),
        None => Err(RpcError::new("handshake READY missing user id")),
    }
}

/// The channel a `GET_SELECTED_VOICE_CHANNEL` reply names (`id`), if any.
pub fn selected_channel(data: &JsonValue) -> (r: Option<ChannelId>)
    ensures
        r == match id_field(spec_get(*data, "id"@)) {
            Some(c) => Some(ChannelId(c)),
            None => None,
        },
{
    match parse_id(get(data, "id")) {
        Some(c) => Some(ChannelId(c)),
        None => None,
    }
}

/// The channel a voice event concerns.
pub open spec fn spec_event_channel(e: SpecVoiceEvent) -> ChannelId {
    match e {
        SpecVoiceEvent::Members { channel, .. } => channel,
        SpecVoiceEvent::SpeakingChanged { channel, .. } => channel,
    }
}

/// Whether a voice event belongs to the subscription for `channel`.
pub fn voice_event_for(e: &VoiceEvent, channel: ChannelId) -> (b: bool)
    ensures
        b == (spec_event_channel(e@) == channel),
{
    match e {
        VoiceEvent::Members { channel: c, .. } => *c == channel,
        VoiceEvent::SpeakingChanged { channel: c, .. } => *c == channel,
    }
}

} // verus!
