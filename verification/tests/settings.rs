use evo_kiosk::overlay::{FsStep, OverlayKey, Overlays, OVERLAY_DIR};
use evo_kiosk::settings::{
    read_overlay, DEFAULT_BRIGHTNESS_PERCENT, DEFAULT_KIOSK_ENABLED, DEFAULT_ROTATION,
    DEFAULT_SLEEP_INHIBIT_ACTIVE, DEFAULT_SLEEP_INHIBIT_WHILE_PLAYING,
    DEFAULT_SLEEP_TIMEOUT_SECONDS, DEFAULT_TOUCH_FLIP,
};
use evo_kiosk::text::{
    decimal_string, parse_unsigned, same_text_ignoring_ascii_case, starts_with_text,
};
use evo_kiosk::{
    normalise_rotation, parse_bool, read_brightness, read_display_rotation, read_display_state,
    read_kiosk_enabled, read_sleep_inhibit_while_playing, read_sleep_timeout_seconds,
    read_touch_hflip, read_touch_rotation, read_touch_vflip, set_brightness, set_display_rotation,
    set_kiosk_enabled, set_sleep_inhibit_active, set_sleep_inhibit_while_playing,
    set_sleep_timeout, set_touch_calibration, KioskConfigError,
};

const KEYS: [OverlayKey; 10] = [
    OverlayKey::DisplayRotation,
    OverlayKey::TouchRotation,
    OverlayKey::LegacyRotation,
    OverlayKey::TouchHflip,
    OverlayKey::TouchVflip,
    OverlayKey::Brightness,
    OverlayKey::SleepTimeoutSeconds,
    OverlayKey::SleepInhibitWhilePlaying,
    OverlayKey::SleepInhibitActive,
    OverlayKey::KioskEnabled,
];

/// Carries out steps on an in-memory directory and reads every overlay back.
fn apply(files: &mut Vec<(String, String)>, steps: &[FsStep]) {
    for step in steps {
        match step {
            FsStep::CreateDirAll { path } => assert_eq!(path, OVERLAY_DIR),
            FsStep::WriteSynced { path, contents } => {
                files.retain(|f| &f.0 != path);
                files.push((path.clone(), contents.clone()));
            }
            FsStep::Rename { from, to } => {
                files.retain(|f| &f.0 != to);
                for f in files.iter_mut() {
                    if &f.0 == from {
                        f.0 = to.clone();
                    }
                }
            }
        }
    }
}

fn snapshot(files: &[(String, String)]) -> Overlays {
    let mut overlays = Overlays::new();
    for key in KEYS {
        for f in files {
            if f.0 == key.path() {
                overlays.record(key, f.1.clone());
            }
        }
    }
    overlays
}

fn overlays(entries: &[(OverlayKey, &str)]) -> Overlays {
    let mut o = Overlays::new();
    for e in entries {
        o.record(e.0, e.1.to_string());
    }
    o
}

#[test]
fn normalises_rotation_aliases() {
    assert_eq!(normalise_rotation("normal"), Some("0"));
    assert_eq!(normalise_rotation("0"), Some("0"));
    assert_eq!(normalise_rotation("  90 "), Some("90"));
    assert_eq!(normalise_rotation("180"), Some("180"));
    assert_eq!(normalise_rotation("270"), Some("270"));
    assert_eq!(normalise_rotation("360"), None);
    assert_eq!(normalise_rotation("portrait"), None);
    assert_eq!(normalise_rotation(""), None);
}

#[test]
fn normalises_across_unicode_white_space() {
    assert_eq!(normalise_rotation("\u{2003}\t270\u{a0}\n"), Some("270"));
    assert_eq!(normalise_rotation("\u{3000}normal\u{85}"), Some("0"));
    // A zero-width space is no white space.
    assert_eq!(normalise_rotation("\u{200b}90"), None);
    assert_eq!(normalise_rotation("9 0"), None);
    assert_eq!(normalise_rotation("Normal"), None);
}

#[test]
fn parse_bool_accepts_documented_aliases() {
    assert_eq!(parse_bool("true"), Some(true));
    assert_eq!(parse_bool("1"), Some(true));
    assert_eq!(parse_bool("yes"), Some(true));
    assert_eq!(parse_bool("false"), Some(false));
    assert_eq!(parse_bool("0"), Some(false));
    assert_eq!(parse_bool("no"), Some(false));
    assert_eq!(parse_bool("nope"), None);
    assert_eq!(parse_bool(""), None);
}

#[test]
fn defaults_are_the_operator_visible_expected_values() {
    assert_eq!(DEFAULT_ROTATION, "0");
    assert!(!DEFAULT_TOUCH_FLIP);
    assert_eq!(DEFAULT_BRIGHTNESS_PERCENT, 80);
    assert_eq!(DEFAULT_SLEEP_TIMEOUT_SECONDS, 120);
    assert!(DEFAULT_SLEEP_INHIBIT_WHILE_PLAYING);
    assert!(!DEFAULT_SLEEP_INHIBIT_ACTIVE);
    assert!(DEFAULT_KIOSK_ENABLED);
}

#[test]
fn a_fresh_device_reads_as_its_defaults() {
    let state = read_display_state(&Overlays::new());
    assert_eq!(state.display_rotation, "0");
    assert_eq!(state.touch.rotation, "0");
    assert!(!state.touch.hflip);
    assert!(!state.touch.vflip);
    assert_eq!(state.brightness_percent, 80);
    assert_eq!(state.sleep_timeout_seconds, 120);
    assert!(state.sleep_inhibit_while_playing);
    assert!(state.enabled);
}

#[test]
fn overlay_paths_are_the_documented_ones() {
    assert_eq!(OVERLAY_DIR, "/var/lib/evo/settings/kiosk");
    let names = [
        "display_rotation",
        "touch_rotation",
        "rotation",
        "touch_hflip",
        "touch_vflip",
        "brightness",
        "sleep_timeout_seconds",
        "sleep_inhibit_while_playing",
        "sleep_inhibit_active",
        "kiosk_enabled",
    ];
    for (key, name) in KEYS.iter().zip(names) {
        assert_eq!(key.file_name(), name);
        assert_eq!(key.path(), format!("/var/lib/evo/settings/kiosk/{name}"));
    }
}

#[test]
fn a_write_goes_through_a_synced_temporary() {
    let change = set_display_rotation(" normal ").unwrap();
    assert_eq!(change.applied, "0");
    assert_eq!(change.steps.len(), 3);
    assert!(matches!(&change.steps[0], FsStep::CreateDirAll { path } if path == OVERLAY_DIR));
    assert!(matches!(
        &change.steps[1],
        FsStep::WriteSynced { path, contents }
            if path == "/var/lib/evo/settings/kiosk/display_rotation.tmp" && contents == "0"
    ));
    assert!(matches!(
        &change.steps[2],
        FsStep::Rename { from, to }
            if from == "/var/lib/evo/settings/kiosk/display_rotation.tmp"
                && to == "/var/lib/evo/settings/kiosk/display_rotation"
    ));
}

#[test]
fn a_refused_rotation_is_named() {
    match set_display_rotation("sideways") {
        Err(KioskConfigError::InvalidRotation(text)) => assert_eq!(text, "sideways"),
        other => panic!("unexpected {other:?}"),
    }
    match set_touch_calibration("45", true, true) {
        Err(KioskConfigError::InvalidRotation(text)) => assert_eq!(text, "45"),
        other => panic!("unexpected {other:?}"),
    }
}

#[test]
fn brightness_stops_at_one_hundred() {
    assert_eq!(set_brightness(0).unwrap().applied, 0);
    assert_eq!(set_brightness(100).unwrap().applied, 100);
    match set_brightness(101) {
        Err(KioskConfigError::InvalidRotation(text)) => {
            assert_eq!(text, "brightness percent 101 out of 0..=100")
        }
        other => panic!("unexpected {other:?}"),
    }
}

#[test]
fn sleep_timeouts_under_five_seconds_are_refused_unless_zero() {
    assert_eq!(set_sleep_timeout(0).unwrap().applied, 0);
    assert_eq!(set_sleep_timeout(5).unwrap().applied, 5);
    assert_eq!(set_sleep_timeout(u32::MAX).unwrap().applied, u32::MAX);
    for seconds in 1..5u32 {
        match set_sleep_timeout(seconds) {
            Err(KioskConfigError::InvalidRotation(text)) => assert_eq!(
                text,
                format!("sleep_timeout_seconds {seconds}: minimum non-zero value is 5")
            ),
            other => panic!("unexpected {other:?}"),
        }
    }
}

#[test]
fn touch_calibration_writes_rotation_then_flips() {
    let change = set_touch_calibration("270", true, false).unwrap();
    assert_eq!(change.applied, ("270", true, false));
    let renamed: Vec<&str> = change
        .steps
        .iter()
        .filter_map(|s| match s {
            FsStep::Rename { to, .. } => Some(to.as_str()),
            _ => None,
        })
        .collect();
    assert_eq!(
        renamed,
        [
            "/var/lib/evo/settings/kiosk/touch_rotation",
            "/var/lib/evo/settings/kiosk/touch_hflip",
            "/var/lib/evo/settings/kiosk/touch_vflip"
        ]
    );
}

#[test]
fn what_was_set_reads_back() {
    let mut files = Vec::new();
    apply(&mut files, &set_display_rotation("90").unwrap().steps);
    apply(
        &mut files,
        &set_touch_calibration("180", true, true).unwrap().steps,
    );
    apply(&mut files, &set_brightness(7).unwrap().steps);
    apply(&mut files, &set_sleep_timeout(86400).unwrap().steps);
    apply(&mut files, &set_sleep_inhibit_while_playing(false).steps);
    apply(&mut files, &set_kiosk_enabled(false).steps);
    let o = snapshot(&files);
    assert_eq!(read_display_rotation(&o), "90");
    assert_eq!(read_touch_rotation(&o), "180");
    assert!(read_touch_hflip(&o));
    assert!(read_touch_vflip(&o));
    assert_eq!(read_brightness(&o), 7);
    assert_eq!(read_sleep_timeout_seconds(&o), 86400);
    assert!(!read_sleep_inhibit_while_playing(&o));
    assert!(!read_kiosk_enabled(&o));
    // A second write replaces the first.
    apply(&mut files, &set_display_rotation("270").unwrap().steps);
    assert_eq!(read_display_rotation(&snapshot(&files)), "270");
}

#[test]
fn every_prefix_of_a_write_leaves_old_or_new_texts() {
    let mut before = Vec::new();
    apply(
        &mut before,
        &set_touch_calibration("90", false, true).unwrap().steps,
    );
    let steps = set_touch_calibration("180", true, false).unwrap().steps;
    for done in 0..=steps.len() {
        let mut files = before.clone();
        apply(&mut files, &steps[..done]);
        let o = snapshot(&files);
        let want = |new: bool, old: &'static str, text: &'static str| {
            Some(if new { text } else { old })
        };
        assert_eq!(
            o.text(OverlayKey::TouchRotation),
            want(done >= 3, "90", "180")
        );
        assert_eq!(
            o.text(OverlayKey::TouchHflip),
            want(done >= 6, "false", "true")
        );
        assert_eq!(
            o.text(OverlayKey::TouchVflip),
            want(done >= 9, "true", "false")
        );
        assert_eq!(o.text(OverlayKey::DisplayRotation), None);
    }
}

#[test]
fn playback_does_not_overwrite_the_operators_wish() {
    let mut files = Vec::new();
    apply(&mut files, &set_sleep_inhibit_while_playing(false).steps);
    let change = set_sleep_inhibit_active(true);
    assert!(change.applied);
    apply(&mut files, &change.steps);
    let o = snapshot(&files);
    assert!(!read_sleep_inhibit_while_playing(&o));
    assert_eq!(
        read_overlay(&o, OverlayKey::SleepInhibitActive).as_deref(),
        Some("true")
    );
}

#[test]
fn rotations_fall_back_to_the_single_axis_overlay() {
    let legacy = overlays(&[(OverlayKey::LegacyRotation, "90\n")]);
    assert_eq!(read_display_rotation(&legacy), "90");
    assert_eq!(read_touch_rotation(&legacy), "90");
    let both = overlays(&[
        (OverlayKey::LegacyRotation, "90"),
        (OverlayKey::DisplayRotation, "180"),
    ]);
    assert_eq!(read_display_rotation(&both), "180");
    assert_eq!(read_touch_rotation(&both), "90");
    let unclear = overlays(&[
        (OverlayKey::LegacyRotation, "270"),
        (OverlayKey::DisplayRotation, "upside down"),
        (OverlayKey::TouchRotation, " \n"),
    ]);
    assert_eq!(read_display_rotation(&unclear), "270");
    assert_eq!(read_touch_rotation(&unclear), "270");
    let hopeless = overlays(&[
        (OverlayKey::LegacyRotation, "45"),
        (OverlayKey::DisplayRotation, "45"),
    ]);
    assert_eq!(read_display_rotation(&hopeless), "0");
}

#[test]
fn unclear_overlays_count_as_their_defaults() {
    let o = overlays(&[
        (OverlayKey::TouchHflip, "maybe"),
        (OverlayKey::TouchVflip, " yes "),
        (OverlayKey::Brightness, "256"),
        (OverlayKey::SleepTimeoutSeconds, "4294967296"),
        (OverlayKey::SleepInhibitWhilePlaying, ""),
        (OverlayKey::KioskEnabled, "TRUE"),
    ]);
    assert!(!read_touch_hflip(&o));
    assert!(read_touch_vflip(&o));
    assert_eq!(read_brightness(&o), 80);
    assert_eq!(read_sleep_timeout_seconds(&o), 120);
    assert!(read_sleep_inhibit_while_playing(&o));
    assert!(read_kiosk_enabled(&o));
}

#[test]
fn brightness_is_reported_without_clamping() {
    assert_eq!(
        read_brightness(&overlays(&[(OverlayKey::Brightness, "255")])),
        255
    );
    assert_eq!(
        read_brightness(&overlays(&[(OverlayKey::Brightness, "+050\n")])),
        50
    );
}

#[test]
fn the_last_recorded_text_of_an_overlay_counts() {
    let o = overlays(&[
        (OverlayKey::Brightness, "1"),
        (OverlayKey::KioskEnabled, "no"),
        (OverlayKey::Brightness, "2"),
    ]);
    assert_eq!(o.text(OverlayKey::Brightness), Some("2"));
    assert_eq!(o.text(OverlayKey::KioskEnabled), Some("no"));
    assert_eq!(o.text(OverlayKey::TouchHflip), None);
}

#[test]
fn numbers_read_as_the_standard_library_reads_them() {
    for text in [
        "0", "7", "255", "256", "+1", "+", "", "-0", "-1", "1 ", " 1", "0x1", "007", "1_0", "++1",
        "4294967295", "4294967296", "99999999999999999999", "\u{661}",
    ] {
        assert_eq!(
            parse_unsigned(text, u32::MAX),
            text.parse::<u32>().ok(),
            "{text:?}"
        );
        assert_eq!(
            parse_unsigned(text, 255),
            text.parse::<u8>().ok().map(u32::from),
            "{text:?}"
        );
    }
    for n in [0u64, 9, 10, 101, 65535, u64::MAX] {
        assert_eq!(decimal_string(n), n.to_string());
    }
}

#[test]
fn text_helpers_compare_whole_characters() {
    assert!(starts_with_text("data:x", "data:"));
    assert!(starts_with_text("data:", "data:"));
    assert!(!starts_with_text("dat", "data:"));
    assert!(!starts_with_text("DATA:x", "data:"));
    assert!(same_text_ignoring_ascii_case("AuTo", "auto"));
    assert!(!same_text_ignoring_ascii_case("autos", "auto"));
    assert!(!same_text_ignoring_ascii_case("\u{c4}", "\u{e4}"));
}
