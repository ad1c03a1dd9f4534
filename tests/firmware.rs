use wifblink::battery::{
    is_battery_low, register_bytes, register_value, soc_percent, with_rcomp, DEFAULT_RCOMP,
};
use wifblink::button::{ButtonPress, PressTracker, LONG_PRESS_SAMPLES};
use wifblink::known::{same_bytes, KnownNames};
use wifblink::lights::{fade_for, light, off, Color, Fade, LightChange};

#[test]
fn known_names_hand_on_new_nonempty_names_once() {
    let mut known = KnownNames::new();
    assert!(known.remember(b"CafeWifi"));
    assert!(!known.remember(b"CafeWifi"));
    assert!(!known.remember(b""));
    assert!(!known.remember(b""));
    assert!(known.contains(b"CafeWifi"));
    assert!(known.contains(b""));
    assert!(!known.contains(b"Guest"));
}

#[test]
fn known_names_rebuilt_from_entries() {
    let entries = vec![b"Guest".to_vec(), b"CafeWifi".to_vec()];
    let mut known = KnownNames::from_entries(&entries);
    assert!(known.contains(b"Guest"));
    assert!(known.contains(b"CafeWifi"));
    assert!(!known.remember(b"Guest"));
    assert!(known.remember(b"Home"));
    assert!(same_bytes(b"ab", b"ab"));
    assert!(!same_bytes(b"ab", b"abc"));
}

#[test]
fn light_changes_and_fades() {
    assert_eq!(light(Color::Green, true), LightChange::Green(true));
    assert_eq!(light(Color::White, false), LightChange::White(false));
    assert_eq!(
        off(),
        vec![
            LightChange::White(false),
            LightChange::Yellow(false),
            LightChange::Green(false),
            LightChange::Blue(false),
        ]
    );
    assert_eq!(
        fade_for(LightChange::Yellow(true)),
        Fade { color: Color::Yellow, from_pct: 0, to_pct: 40, duration_ms: 400 }
    );
    assert_eq!(
        fade_for(LightChange::Yellow(false)),
        Fade { color: Color::Yellow, from_pct: 40, to_pct: 0, duration_ms: 400 }
    );
    assert_eq!(
        fade_for(LightChange::Green(true)),
        Fade { color: Color::Green, from_pct: 0, to_pct: 20, duration_ms: 128 }
    );
    assert_eq!(
        fade_for(LightChange::Blue(false)),
        Fade { color: Color::Blue, from_pct: 20, to_pct: 0, duration_ms: 40 }
    );
    assert_eq!(
        fade_for(LightChange::White(true)),
        Fade { color: Color::White, from_pct: 0, to_pct: 20, duration_ms: 40 }
    );
}

#[test]
fn button_short_and_long_presses() {
    let mut short = PressTracker::new();
    assert_eq!(short.sample(false), None);
    assert_eq!(short.sample(true), Some(ButtonPress::Single));

    let mut long = PressTracker::new();
    for _ in 0..LONG_PRESS_SAMPLES - 1 {
        assert_eq!(long.sample(false), None);
    }
    assert_eq!(long.sample(false), Some(ButtonPress::Long));
}

#[test]
fn gauge_register_arithmetic() {
    assert_eq!(register_value(0x12, 0x34), 0x1234);
    assert_eq!(register_bytes(0x1234), (0x12, 0x34));
    assert_eq!(soc_percent(0x4B80), 75);
    assert_eq!(with_rcomp(0x971C, 0x80), 0x801C);
    assert_eq!(with_rcomp(0x001C, DEFAULT_RCOMP), 0x971C);
    assert!(is_battery_low(19));
    assert!(!is_battery_low(20));
}
