//! Domain model: voice kinds and the anchor cycle.

use couchcord::{Anchor, VoiceKind};

#[test]
fn voice_kind_from_type() {
    assert_eq!(VoiceKind::from_discord_type(2), Some(VoiceKind::Guild));
    assert_eq!(VoiceKind::from_discord_type(13), Some(VoiceKind::Stage));
    for t in [0u8, 1, 3, 4, 5, 11, 12, 14, 15] {
        assert_eq!(VoiceKind::from_discord_type(t), None, "type {t} must not be voice");
    }
}

#[test]
fn anchor_cycle_visits_all_eight_and_wraps() {
    let mut a = Anchor::TopLeft;
    let mut seen = std::collections::HashSet::new();
    for _ in 0..8 {
        assert!(seen.insert(a), "anchor cycle repeated {a:?} before visiting all 8");
        a = a.next();
    }
    assert_eq!(seen.len(), 8);
    assert_eq!(a, Anchor::TopLeft, "cycle of 8 must return to start");
}

#[test]
fn anchor_cycle_returns_from_every_start() {
    for start in Anchor::ALL {
        let mut a = start;
        for _ in 0..8 {
            a = a.next();
        }
        assert_eq!(a, start);
    }
}
