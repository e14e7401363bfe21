//! The pre-flight gate: three checks of the assumptions the daemon rests on
//! (the Discord IPC socket, the Steam Input virtual keyboard, the gamescope
//! external-overlay display), each reported as OK, WARN or FAIL.
//!
//! `Ok` means the assumption holds here and now; `Warn` that it cannot be
//! verified in this context (no game-mode session running), which is no
//! failure; `Fail` a concrete, actionable problem. The exit code is the number
//! of failures, so `0` means nothing is actionably broken.
//!
//! The probing itself (listing devices, connecting sockets, asking the X
//! server) happens outside the library; it hands the probe results here, and
//! every finding and message is decided below.

use crate::input::{is_steam_virtual_keyboard, spec_is_steam_virtual_keyboard};
use crate::render::{display_name, display_name_of};
use crate::text::{decimal, push_decimal};
use vstd::prelude::*;

verus! {

/// The finding of one check (reported as OK, WARN and FAIL).
#[derive(Clone, Copy, Debug, PartialEq, Eq, Structural)]
pub enum Status {
    Pass,
    Warn,
    Fail,
}

/// One check's report.
#[derive(Debug)]
pub struct Check {
    pub status: Status,
    pub title: String,
    pub detail: String,
    pub hint: Option<String>,
}

/// A report as values.
pub struct SpecCheck {
    pub status: Status,
    pub title: Seq<char>,
    pub detail: Seq<char>,
    pub hint: Option<Seq<char>>,
}

impl View for Check {
    type V = SpecCheck;

    open spec fn view(&self) -> SpecCheck {
        SpecCheck {
            status: self.status,
            title: self.title@,
            detail: self.detail@,
            hint: match self.hint {
                Some(h) => Some(h@),
                None => None,
            },
        }
    }
}

fn check(status: Status, title: &str, detail: String, hint: Option<&str>) -> (c: Check)
    ensures
        c.status == status,
        c.title@ == title@,
        c.detail == detail,
        c.hint matches Some(h) ==> hint matches Some(g) && h@ == g@,
        c.hint is None ==> hint is None,
{
    let hint = match hint {
        Some(h) => Some(h.to_owned()),
        None => None,
    };
    Check { status, title: title.to_owned(), detail, hint }
}

/// `parts` joined with `sep` between neighbours.
pub open spec fn join(parts: Seq<Seq<char>>, sep: Seq<char>) -> Seq<char>
    decreases parts.len(),
{
    if parts.len() == 0 {
        seq![]
    } else if parts.len() == 1 {
        parts[0]
    } else {
        join(parts.drop_last(), sep) + sep + parts.last()
    }
}

/// The character sequences of a list of strings.
pub open spec fn strings_view(v: Seq<String>) -> Seq<Seq<char>> {
    v.map_values(|s: String| s@)
}

/// `parts.join(sep)`.
pub fn join_strings(parts: &Vec<String>, sep: &str) -> (out: String)
    ensures
        out@ == join(strings_view(parts@), sep@),
{
    let mut out = String::new();
    let mut i: usize = 0;
    while i < parts.len()
        invariant
            i <= parts.len(),
            out@ == join(strings_view(parts@.take(i as int)), sep@),
        decreases parts.len() - i,
    {
        let ghost before = strings_view(parts@.take(i as int));
        if i > 0 {
            out.append(sep);
        }
        out.append(parts[i].as_str());
        proof {
            let after = strings_view(parts@.take(i + 1));
            assert(after.drop_last() =~= before);
            assert(after.last() == parts@[i as int]@);
            if i == 0 {
                assert(out@ =~= join(after, sep@));
            }
        }
        i = i + 1;
    }
    assert(parts@.take(parts.len() as int) =~= parts@);
    out
}

// ---------------------------------------------------------------------------
// 1. Discord local RPC socket
// ---------------------------------------------------------------------------

/// Title of the IPC check.
pub open spec fn ipc_title() -> Seq<char> {
    "Discord local RPC socket"@
}

/// The runtime directory: `$XDG_RUNTIME_DIR`, else the first user's.
pub fn runtime_dir(env: Option<String>) -> (dir: String)
    ensures
        dir@ == match env {
            Some(d) => d@,
            None => "/run/user/1000"@,
        },
{
    match env {
        Some(d) => d,
        None => String::from_str("/run/user/1000"),
    }
}

/// The IPC finding: the first socket found and whether it accepted a
/// connection, or none found under `runtime`.
pub open spec fn spec_ipc_check(runtime: Seq<char>, found: Option<(Seq<char>, bool)>) -> SpecCheck {
    match found {
        Some((path, true)) => SpecCheck {
            status: Status::Pass,
            title: ipc_title(),
            detail: "connectable at "@ + path,
            hint: None,
        },
        Some((path, false)) => SpecCheck {
            status: Status::Fail,
            title: ipc_title(),
            detail: path + " exists but refused a connection (stale?)"@,
            hint: Some("restart Discord so it recreates the IPC socket"@),
        },
        None => SpecCheck {
            status: Status::Warn,
            title: ipc_title(),
            detail: "no discord-ipc-N socket under "@ + runtime,
            hint: Some("start the Discord client (it must be running for voice + RPC)"@),
        },
    }
}

/// Report on the Discord IPC socket.
pub fn ipc_check(runtime: &str, found: Option<(String, bool)>) -> (c: Check)
    ensures
        c@ == spec_ipc_check(
            runtime@,
            match found {
                Some((p, b)) => Some((p@, b)),
                None => None,
            },
        ),
{
    let title = "Discord local RPC socket";
    match found {
        Some((path, true)) => {
            let mut d = String::from_str("connectable at ");
            d.append(path.as_str());
            check(Status::Pass, title, d, None)
        },
        Some((path, false)) => {
            let mut d = path;
            d.append(" exists but refused a connection (stale?)");
            check(Status::Fail, title, d, Some("restart Discord so it recreates the IPC socket"))
        },
        None => {
            let mut d = String::from_str("no discord-ipc-N socket under ");
            d.append(runtime);
            check(
                Status::Warn,
                title,
                d,
                Some("start the Discord client (it must be running for voice + RPC)"),
            )
        },
    }
}

// ---------------------------------------------------------------------------
// 2. Steam Input virtual keyboard + input-device readability
// ---------------------------------------------------------------------------

/// What opening one `/dev/input/event*` node gave.
pub enum DeviceProbe {
    /// The device opened; its name, and whether it offers Enter and A.
    Opened { name: Option<String>, has_enter: bool, has_a: bool },
    /// Opening was refused for lack of permission.
    Denied,
    /// Opening failed otherwise.
    Failed,
}

/// Title of the keyboard check.
pub open spec fn keyboard_title() -> Seq<char> {
    "Steam Input virtual keyboard"@
}

/// A device counts as a keyboard when it offers Enter and A.
pub open spec fn is_keyboard_probe(p: DeviceProbe) -> bool {
    p matches DeviceProbe::Opened { has_enter, has_a, .. } && has_enter && has_a
}

/// The name a device is listed under.
pub open spec fn probe_name(p: DeviceProbe) -> Seq<char> {
    match p {
        DeviceProbe::Opened { name: Some(n), .. } => n@,
        _ => "<unnamed>"@,
    }
}

/// The names of the keyboards among the probes, in order.
pub open spec fn keyboard_names(p: Seq<DeviceProbe>) -> Seq<Seq<char>>
    decreases p.len(),
{
    if p.len() == 0 {
        seq![]
    } else if is_keyboard_probe(p.last()) {
        keyboard_names(p.drop_last()).push(probe_name(p.last()))
    } else {
        keyboard_names(p.drop_last())
    }
}

/// How many devices refused to open for lack of permission.
pub open spec fn denied_count(p: Seq<DeviceProbe>) -> nat
    decreases p.len(),
{
    if p.len() == 0 {
        0
    } else {
        denied_count(p.drop_last()) + if p.last() is Denied {
            1nat
        } else {
            0nat
        }
    }
}

/// The names that look like the Steam / virtual keyboard, in order.
pub open spec fn virtual_names(names: Seq<Seq<char>>) -> Seq<Seq<char>>
    decreases names.len(),
{
    if names.len() == 0 {
        seq![]
    } else if spec_is_steam_virtual_keyboard(names.last(), true) {
        virtual_names(names.drop_last()).push(names.last())
    } else {
        virtual_names(names.drop_last())
    }
}

/// The device summary shared by the OK and WARN reports.
pub open spec fn device_summary(total: nat, names: Seq<Seq<char>>, denied: nat) -> Seq<char> {
    decimal(total) + " readable input devices, keyboards: "@ + decimal(names.len()) + (if names.len()
        > 0 {
        "\n  ["@ + join(names, ", "@) + "]"@
    } else {
        seq![]
    }) + (if denied > 0 {
        "\n  ("@ + decimal(denied) + " device(s) not readable \u{2014} partial input-group access)"@
    } else {
        seq![]
    })
}

/// The keyboard finding: the device listing failed; no device was readable
/// and some refused permission; a Steam / virtual keyboard is present; or
/// none is (expected outside a game session).
pub open spec fn spec_keyboard_check(listing: Result<Seq<DeviceProbe>, Seq<char>>) -> SpecCheck {
    match listing {
        Err(e) => SpecCheck {
            status: Status::Fail,
            title: keyboard_title(),
            detail: "cannot list /dev/input: "@ + e,
            hint: None,
        },
        Ok(p) => {
            let names = keyboard_names(p);
            let denied = denied_count(p);
            let virt = virtual_names(names);
            let summary = device_summary(p.len(), names, denied);
            if denied > 0 && names.len() == 0 {
                SpecCheck {
                    status: Status::Fail,
                    title: keyboard_title(),
                    detail: "permission denied on "@ + decimal(denied) + "/"@ + decimal(p.len())
                        + " input devices; none readable"@,
                    hint: Some(
                        "join the input group: sudo usermod -aG input $USER, then re-login"@,
                    ),
                }
            } else if virt.len() > 0 {
                SpecCheck {
                    status: Status::Pass,
                    title: keyboard_title(),
                    detail: summary + "\n  steam/virtual candidate: "@ + join(virt, ", "@),
                    hint: None,
                }
            } else {
                SpecCheck {
                    status: Status::Warn,
                    title: keyboard_title(),
                    detail: summary + "\n  no steam/virtual keyboard present"@,
                    hint: Some(
                        "expected only while a game runs with Steam Input active \u{2014} re-run inside a game session"@,
                    ),
                }
            }
        },
    }
}

proof fn lemma_denied_bounded(p: Seq<DeviceProbe>)
    ensures
        denied_count(p) <= p.len(),
    decreases p.len(),
{
    if p.len() > 0 {
        lemma_denied_bounded(p.drop_last());
    }
}

proof fn lemma_keyboards_bounded(p: Seq<DeviceProbe>)
    ensures
        keyboard_names(p).len() <= p.len(),
    decreases p.len(),
{
    if p.len() > 0 {
        lemma_keyboards_bounded(p.drop_last());
    }
}

/// Tally the probes: keyboard names in order, and how many were refused.
fn tally_devices(probes: &Vec<DeviceProbe>) -> (r: (Vec<String>, usize))
    ensures
        strings_view(r.0@) == keyboard_names(probes@),
        r.1 as nat == denied_count(probes@),
{
    let mut names: Vec<String> = Vec::new();
    let mut denied: usize = 0;
    let mut i: usize = 0;
    while i < probes.len()
        invariant
            i <= probes.len(),
            strings_view(names@) == keyboard_names(probes@.take(i as int)),
            denied as nat == denied_count(probes@.take(i as int)),
        decreases probes.len() - i,
    {
        proof {
            assert(probes@.take(i + 1).drop_last() =~= probes@.take(i as int));
            lemma_denied_bounded(probes@.take(i as int));
        }
        match &probes[i] {
            DeviceProbe::Opened { name, has_enter, has_a } => {
                if *has_enter && *has_a {
                    let n = match name {
                        Some(n) => n.clone(),
                        None => String::from_str("<unnamed>"),
                    };
                    names.push(n);
                    proof {
                        assert(strings_view(names@) =~= keyboard_names(probes@.take(i as int)).push(
                            probe_name(probes@[i as int]),
                        ));
                    }
                }
            },
            DeviceProbe::Denied => {
                denied = denied + 1;
            },
            DeviceProbe::Failed => {},
        }
        i = i + 1;
    }
    assert(probes@.take(probes.len() as int) =~= probes@);
    (names, denied)
}

/// The names among `names` that look like the Steam / virtual keyboard.
fn virtual_candidates(names: &Vec<String>) -> (v: Vec<String>)
    ensures
        strings_view(v@) == virtual_names(strings_view(names@)),
{
    let mut v: Vec<String> = Vec::new();
    let mut i: usize = 0;
    while i < names.len()
        invariant
            i <= names.len(),
            strings_view(v@) == virtual_names(strings_view(names@.take(i as int))),
        decreases names.len() - i,
    {
        proof {
            let t = strings_view(names@.take(i + 1));
            assert(t.drop_last() =~= strings_view(names@.take(i as int)));
            assert(t.last() == names@[i as int]@);
        }
        if is_steam_virtual_keyboard(names[i].as_str(), true) {
            v.push(names[i].clone());
            proof {
                assert(strings_view(v@) =~= virtual_names(strings_view(names@.take(i as int))).push(
                    names@[i as int]@,
                ));
            }
        }
        i = i + 1;
    }
    assert(names@.take(names.len() as int) =~= names@);
    v
}

/// Report on the input devices: `listing` is the probe of every
/// `/dev/input/event*` node in path order, or why the directory could not be
/// listed.
pub fn keyboard_check(listing: Result<Vec<DeviceProbe>, String>) -> (c: Check)
    ensures
        c@ == spec_keyboard_check(
            match listing {
                Ok(p) => Ok(p@),
                Err(e) => Err(e@),
            },
        ),
{
    let title = "Steam Input virtual keyboard";
    let probes = match listing {
        Err(e) => {
            let mut d = String::from_str("cannot list /dev/input: ");
            d.append(e.as_str());
            return check(Status::Fail, title, d, None);
        },
        Ok(p) => p,
    };
    let total = probes.len();
    let (names, denied) = tally_devices(&probes);
    proof {
        lemma_denied_bounded(probes@);
        lemma_keyboards_bounded(probes@);
    }
    if denied > 0 && names.len() == 0 {
        let mut d = String::from_str("permission denied on ");
        push_decimal(&mut d, denied as u64);
        d.append("/");
        push_decimal(&mut d, total as u64);
        d.append(" input devices; none readable");
        return check(
            Status::Fail,
            title,
            d,
            Some("join the input group: sudo usermod -aG input $USER, then re-login"),
        );
    }
    let mut d = String::new();
    push_decimal(&mut d, total as u64);
    d.append(" readable input devices, keyboards: ");
    push_decimal(&mut d, names.len() as u64);
    if names.len() > 0 {
        d.append("\n  [");
        let joined = join_strings(&names, ", ");
        d.append(joined.as_str());
        d.append("]");
    }
    if denied > 0 {
        d.append("\n  (");
        push_decimal(&mut d, denied as u64);
        d.append(" device(s) not readable \u{2014} partial input-group access)");
    }
    proof {
        assert(d@ =~= device_summary(probes@.len(), strings_view(names@), denied as nat));
    }
    let virt = virtual_candidates(&names);
    if virt.len() > 0 {
        d.append("\n  steam/virtual candidate: ");
        let joined = join_strings(&virt, ", ");
        d.append(joined.as_str());
        check(Status::Pass, title, d, None)
    } else {
        d.append("\n  no steam/virtual keyboard present");
        check(
            Status::Warn,
            title,
            d,
            Some(
                "expected only while a game runs with Steam Input active \u{2014} re-run inside a game session",
            ),
        )
    }
}

// ---------------------------------------------------------------------------
// 3. gamescope nested-X display + GAMESCOPE_EXTERNAL_OVERLAY atom
// ---------------------------------------------------------------------------

/// What asking one X display for the overlay atom gave.
pub enum OverlayProbe {
    /// The display has the `GAMESCOPE_EXTERNAL_OVERLAY` atom.
    Advertised,
    /// It answered, without the atom.
    NoAtom,
    /// It could not be asked; why.
    Unreachable(String),
}

/// Title of the overlay check.
pub open spec fn overlay_title() -> Seq<char> {
    "gamescope external-overlay"@
}

/// How one probed display is listed when none advertises the atom.
pub open spec fn seen_entry(n: u32, p: OverlayProbe) -> Seq<char> {
    match p {
        OverlayProbe::Unreachable(e) => display_name(n) + " (unreachable: "@ + e@ + ")"@,
        _ => display_name(n) + " (no overlay atom)"@,
    }
}

/// The listing of all probed displays.
pub open spec fn seen_entries(p: Seq<(u32, OverlayProbe)>) -> Seq<Seq<char>> {
    p.map_values(|e: (u32, OverlayProbe)| seen_entry(e.0, e.1))
}

/// Index of the first display that advertises the atom, if any.
pub open spec fn first_advertised(p: Seq<(u32, OverlayProbe)>) -> Option<int> {
    if exists|i: int| 0 <= i < p.len() && (#[trigger] p[i]).1 is Advertised {
        Some(
            choose|i: int|
                0 <= i < p.len() && (#[trigger] p[i]).1 is Advertised && forall|j: int|
                    0 <= j < i ==> !((#[trigger] p[j]).1 is Advertised),
        )
    } else {
        None
    }
}

/// The overlay finding over the displays probed in ascending order: none
/// found; the first that advertises the atom; or the list of what was seen.
pub open spec fn spec_overlay_check(p: Seq<(u32, OverlayProbe)>) -> SpecCheck {
    if p.len() == 0 {
        SpecCheck {
            status: Status::Warn,
            title: overlay_title(),
            detail: "no X displays found under /tmp/.X11-unix"@,
            hint: Some("the gamescope nested-X server only exists inside a game-mode session"@),
        }
    } else {
        match first_advertised(p) {
            Some(i) => SpecCheck {
                status: Status::Pass,
                title: overlay_title(),
                detail: display_name(p[i].0) + " advertises GAMESCOPE_EXTERNAL_OVERLAY (renderable)"@,
                hint: None,
            },
            None => SpecCheck {
                status: Status::Warn,
                title: overlay_title(),
                detail: "checked "@ + join(seen_entries(p), ", "@) + ": none advertise the atom"@,
                hint: Some("run inside the gamescope game-mode session to verify overlay rendering"@),
            },
        }
    }
}

/// Report on the gamescope overlay: `probes` pairs each X display number, in
/// ascending order, with what asking it gave (probing may stop at the first
/// display that advertises the atom).
pub fn overlay_check(probes: &Vec<(u32, OverlayProbe)>) -> (c: Check)
    ensures
        c@ == spec_overlay_check(probes@),
{
    let title = "gamescope external-overlay";
    if probes.len() == 0 {
        return check(
            Status::Warn,
            title,
            String::from_str("no X displays found under /tmp/.X11-unix"),
            Some("the gamescope nested-X server only exists inside a game-mode session"),
        );
    }
    let mut seen: Vec<String> = Vec::new();
    let mut i: usize = 0;
    while i < probes.len()
        invariant
            i <= probes.len(),
            forall|j: int| 0 <= j < i ==> !((#[trigger] probes@[j]).1 is Advertised),
            strings_view(seen@) == seen_entries(probes@.take(i as int)),
        decreases probes.len() - i,
    {
        let (n, p) = &probes[i];
        let mut e = display_name_of(*n);
        match p {
            OverlayProbe::Advertised => {
                e.append(" advertises GAMESCOPE_EXTERNAL_OVERLAY (renderable)");
                proof {
                    assert(probes@[i as int].1 is Advertised);
                    assert(first_advertised(probes@) == Some(i as int)) by {
                        assert(0 <= i < probes@.len() && probes@[i as int].1 is Advertised && forall|
                            j: int,
                        |
                            0 <= j < i ==> !((#[trigger] probes@[j]).1 is Advertised));
                        let k = choose|k: int|
                            0 <= k < probes@.len() && (#[trigger] probes@[k]).1 is Advertised
                                && forall|j: int|
                                0 <= j < k ==> !((#[trigger] probes@[j]).1 is Advertised);
                        if k < i {
                            assert(!(probes@[k].1 is Advertised));
                        } else if k > i {
                            assert(!(probes@[i as int].1 is Advertised));
                        }
                    }
                    assert(e@ == display_name(probes@[i as int].0)
                        + " advertises GAMESCOPE_EXTERNAL_OVERLAY (renderable)"@);
                }
                return check(Status::Pass, "gamescope external-overlay", e, None);
            },
            OverlayProbe::NoAtom => {
                e.append(" (no overlay atom)");
            },
            OverlayProbe::Unreachable(why) => {
                e.append(" (unreachable: ");
                e.append(why.as_str());
                e.append(")");
            },
        }
        let ghost before = seen@;
        proof {
            assert(e@ == seen_entry(probes@[i as int].0, probes@[i as int].1));
        }
        seen.push(e);
        proof {
            assert(probes@.take(i + 1) =~= probes@.take(i as int).push(probes@[i as int]));
            assert(seen_entries(probes@.take(i + 1)) =~= seen_entries(probes@.take(i as int)).push(
                seen_entry(probes@[i as int].0, probes@[i as int].1),
            ));
            assert(strings_view(seen@) =~= strings_view(before).push(e@));
        }
        i = i + 1;
    }
    assert(probes@.take(probes.len() as int) =~= probes@);
    let mut d = String::from_str("checked ");
    let joined = join_strings(&seen, ", ");
    d.append(joined.as_str());
    d.append(": none advertise the atom");
    check(
        Status::Warn,
        title,
        d,
        Some("run inside the gamescope game-mode session to verify overlay rendering"),
    )
}

// ---------------------------------------------------------------------------
// Summary
// ---------------------------------------------------------------------------

/// How many reports carry `status`.
pub open spec fn count_status(c: Seq<Check>, status: Status) -> nat
    decreases c.len(),
{
    if c.len() == 0 {
        0
    } else {
        count_status(c.drop_last(), status) + if c.last().status == status {
            1nat
        } else {
            0nat
        }
    }
}

proof fn lemma_count_bounded(c: Seq<Check>, status: Status)
    ensures
        count_status(c, status) <= c.len(),
    decreases c.len(),
{
    if c.len() > 0 {
        lemma_count_bounded(c.drop_last(), status);
    }
}

/// Exit code 0 means nothing is actionably broken: no report failed.
pub proof fn lemma_zero_exit_means_no_failure(c: Seq<Check>)
    ensures
        count_status(c, Status::Fail) == 0 <==> forall|i: int|
            0 <= i < c.len() ==> (#[trigger] c[i]).status != Status::Fail,
    decreases c.len(),
{
    if c.len() > 0 {
        lemma_zero_exit_means_no_failure(c.drop_last());
        if count_status(c, Status::Fail) == 0 {
            assert forall|i: int| 0 <= i < c.len() implies (#[trigger] c[i]).status != Status::Fail by {
                if i < c.len() - 1 {
                    assert(c.drop_last()[i] == c[i]);
                }
            }
        } else if forall|i: int| 0 <= i < c.len() ==> (#[trigger] c[i]).status != Status::Fail {
            assert forall|i: int| 0 <= i < c.drop_last().len() implies (#[trigger] c.drop_last()[i]).status
                != Status::Fail by {
                assert(c.drop_last()[i] == c[i]);
            }
            assert(c[c.len() - 1].status != Status::Fail);
        }
    }
}

/// How many of `checks` carry `status`.
pub fn count(checks: &Vec<Check>, status: Status) -> (n: usize)
    ensures
        n as nat == count_status(checks@, status),
{
    let mut n: usize = 0;
    let mut i: usize = 0;
    while i < checks.len()
        invariant
            i <= checks.len(),
            n as nat == count_status(checks@.take(i as int), status),
        decreases checks.len() - i,
    {
        proof {
            assert(checks@.take(i + 1).drop_last() =~= checks@.take(i as int));
            lemma_count_bounded(checks@.take(i as int), status);
        }
        if checks[i].status == status {
            n = n + 1;
        }
        i = i + 1;
    }
    assert(checks@.take(checks.len() as int) =~= checks@);
    n
}

/// The process exit code: the number of failures, capped at 255.
pub fn exit_code(checks: &Vec<Check>) -> (code: u8)
    ensures
        code as nat == if count_status(checks@, Status::Fail) < 255 {
            count_status(checks@, Status::Fail)
        } else {
            255
        },
{
    let fails = count(checks, Status::Fail);
    if fails < 255 {
        fails as u8
    } else {
        255
    }
}

/// The closing line: `summary: <ok> ok, <warn> warn, <fail> fail`.
pub open spec fn spec_summary_line(c: Seq<Check>) -> Seq<char> {
    "summary: "@ + decimal(count_status(c, Status::Pass)) + " ok, "@ + decimal(
        count_status(c, Status::Warn),
    ) + " warn, "@ + decimal(count_status(c, Status::Fail)) + " fail"@
}

/// The closing summary line.
pub fn summary_line(checks: &Vec<Check>) -> (s: String)
    ensures
        s@ == spec_summary_line(checks@),
{
    let mut s = String::from_str("summary: ");
    push_decimal(&mut s, count(checks, Status::Pass) as u64);
    s.append(" ok, ");
    push_decimal(&mut s, count(checks, Status::Warn) as u64);
    s.append(" warn, ");
    push_decimal(&mut s, count(checks, Status::Fail) as u64);
    s.append(" fail");
    s
}

/// Whether to suggest re-running inside a game session: something could not
/// be verified here, and nothing failed.
pub fn suggest_rerun(checks: &Vec<Check>) -> (b: bool)
    ensures
        b == (count_status(checks@, Status::Warn) > 0 && count_status(checks@, Status::Fail) == 0),
{
    count(checks, Status::Warn) > 0 && count(checks, Status::Fail) == 0
}

/// The label a report is printed under.
pub fn status_label(status: Status) -> (s: &'static str)
    ensures
        s@ == match status {
            Status::Pass => "OK  "@,
            Status::Warn => "WARN"@,
            Status::Fail => "FAIL"@,
        },
{
    match status {
        Status::Pass => "OK  ",
        Status::Warn => "WARN",
        Status::Fail => "FAIL",
    }
}

} // verus!
