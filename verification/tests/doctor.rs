//! The pre-flight gate's findings and messages.

use couchcord::protocol::ipc_socket_path;
use couchcord::doctor::{
    count, exit_code, ipc_check, keyboard_check, overlay_check, runtime_dir,
    status_label, suggest_rerun, summary_line, Check, DeviceProbe, OverlayProbe, Status,
};

fn opened(name: &str, keys: bool) -> DeviceProbe {
    DeviceProbe::Opened { name: Some(name.into()), has_enter: keys, has_a: keys }
}

#[test]
fn ipc_socket_paths_and_findings() {
    assert_eq!(runtime_dir(None), "/run/user/1000");
    assert_eq!(ipc_socket_path("/run/user/1000", 3), "/run/user/1000/discord-ipc-3");
    let ok = ipc_check("/r", Some(("/r/discord-ipc-0".into(), true)));
    assert_eq!(ok.status, Status::Pass);
    assert_eq!(ok.detail, "connectable at /r/discord-ipc-0");
    let stale = ipc_check("/r", Some(("/r/discord-ipc-1".into(), false)));
    assert_eq!(stale.status, Status::Fail);
    assert_eq!(stale.detail, "/r/discord-ipc-1 exists but refused a connection (stale?)");
    assert_eq!(stale.hint.as_deref(), Some("restart Discord so it recreates the IPC socket"));
    let none = ipc_check("/r", None);
    assert_eq!(none.status, Status::Warn);
    assert_eq!(none.detail, "no discord-ipc-N socket under /r");
}

#[test]
fn keyboard_findings() {
    let c = keyboard_check(Err("No such file or directory".into()));
    assert_eq!(c.status, Status::Fail);
    assert_eq!(c.detail, "cannot list /dev/input: No such file or directory");

    let c = keyboard_check(Ok(vec![DeviceProbe::Denied, DeviceProbe::Denied, DeviceProbe::Failed]));
    assert_eq!(c.status, Status::Fail);
    assert_eq!(c.detail, "permission denied on 2/3 input devices; none readable");

    let c = keyboard_check(Ok(vec![
        opened("AT Translated Set 2 keyboard", true),
        opened("Steam Virtual Keyboard", true),
        opened("Steam Controller", false),
        DeviceProbe::Denied,
    ]));
    assert_eq!(c.status, Status::Pass);
    assert_eq!(
        c.detail,
        "4 readable input devices, keyboards: 2\n  [AT Translated Set 2 keyboard, Steam Virtual Keyboard]\n  (1 device(s) not readable — partial input-group access)\n  steam/virtual candidate: Steam Virtual Keyboard"
    );
    assert!(c.hint.is_none());

    let c = keyboard_check(Ok(vec![DeviceProbe::Opened { name: None, has_enter: true, has_a: true }]));
    assert_eq!(c.status, Status::Warn);
    assert_eq!(
        c.detail,
        "1 readable input devices, keyboards: 1\n  [<unnamed>]\n  no steam/virtual keyboard present"
    );

    let c = keyboard_check(Ok(vec![]));
    assert_eq!(c.status, Status::Warn);
    assert_eq!(c.detail, "0 readable input devices, keyboards: 0\n  no steam/virtual keyboard present");
}

#[test]
fn overlay_findings() {
    let c = overlay_check(&vec![]);
    assert_eq!(c.status, Status::Warn);
    assert_eq!(c.detail, "no X displays found under /tmp/.X11-unix");
    let c = overlay_check(&vec![(0, OverlayProbe::NoAtom), (1, OverlayProbe::Advertised)]);
    assert_eq!(c.status, Status::Pass);
    assert_eq!(c.detail, ":1 advertises GAMESCOPE_EXTERNAL_OVERLAY (renderable)");
    let c = overlay_check(&vec![(0, OverlayProbe::NoAtom), (2, OverlayProbe::Unreachable("refused".into()))]);
    assert_eq!(c.status, Status::Warn);
    assert_eq!(c.detail, "checked :0 (no overlay atom), :2 (unreachable: refused): none advertise the atom");
}

fn report(status: Status) -> Check {
    Check { status, title: "t".into(), detail: String::new(), hint: None }
}

#[test]
fn summary_and_exit_code() {
    let checks = vec![report(Status::Pass), report(Status::Warn), report(Status::Warn)];
    assert_eq!(exit_code(&checks), 0);
    assert_eq!(summary_line(&checks), "summary: 1 ok, 2 warn, 0 fail");
    assert!(suggest_rerun(&checks));
    let checks = vec![report(Status::Fail), report(Status::Warn), report(Status::Fail)];
    assert_eq!(exit_code(&checks), 2);
    assert_eq!(count(&checks, Status::Fail), 2);
    assert!(!suggest_rerun(&checks));
    let many: Vec<Check> = (0..300).map(|_| report(Status::Fail)).collect();
    assert_eq!(exit_code(&many), 255, "capped");
    assert_eq!(status_label(Status::Pass), "OK  ");
    assert_eq!(status_label(Status::Fail), "FAIL");
}
