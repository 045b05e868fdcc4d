//! The operator settings: what may be written to each overlay, and what a set
//! of overlay files says.
//!
//! Every `set_` function checks a value and gives the steps that persist it;
//! every `read_` function gives the current value, or the setting's default
//! where its overlay is absent, empty or not understood.

use crate::overlay::{write_overlay_atomic, FsStep, OverlayKey, Overlays};
use crate::text::{decimal_string, parse_unsigned, same_text};
use vstd::prelude::*;

verus! {

use crate::overlay::{
    after_steps,
    directory_first,
    law_overlay_steps_are_safe,
    law_overlay_write_is_atomic,
    law_overlay_write_replaces_one_file,
    law_texts_after_overlay_write,
    lemma_after_steps_append,
    never_torn,
    overlay_steps,
    overlay_texts,
    step_models,
    text_at,
    visible_during,
    Files,
    OverlayTexts,
    StepModel,
};
use crate::text::{
    decimal,
    law_trimming_is_done_at_once,
    lemma_decimal_round_trip,
    lemma_decimal_writes,
    lemma_trimmed_is_identity,
    trimmed,
    unsigned_value,
};

/// The rotation of display and touch panel when no overlay says otherwise.
pub const DEFAULT_ROTATION: &'static str = "0";

/// The flip of either touch axis when no overlay says otherwise.
pub const DEFAULT_TOUCH_FLIP: bool = false;

/// The backlight percentage that an operator expects before any change.
pub const DEFAULT_BRIGHTNESS_PERCENT: u8 = 80;

/// The idle time before sleep when no overlay says otherwise.
pub const DEFAULT_SLEEP_TIMEOUT_SECONDS: u32 = 120;

/// Whether playback keeps the screen awake when no overlay says otherwise.
pub const DEFAULT_SLEEP_INHIBIT_WHILE_PLAYING: bool = true;

/// The playback mirror before the first playback transition.
pub const DEFAULT_SLEEP_INHIBIT_ACTIVE: bool = false;

/// Whether the kiosk unit counts as enabled when no overlay says otherwise.
pub const DEFAULT_KIOSK_ENABLED: bool = true;

/// Why a setting was refused.
#[derive(Debug)]
pub enum KioskConfigError {
    /// The value is not one that the setting can take.
    InvalidRotation(String),
    /// The calibration wizard was given another number of samples than four.
    SampleCountMismatch(usize),
    /// A sample coordinate is not in the unit interval. Its bit pattern.
    SampleOutOfRange(u64),
}

/// An accepted change: the value that was applied, for the caller to echo, and
/// the steps that persist it.
#[derive(Debug)]
pub struct Change<T> {
    pub applied: T,
    pub steps: Vec<FsStep>,
}

/// The canonical form of a rotation, where `raw` is one.
pub open spec fn normalised(raw: Seq<char>) -> Option<Seq<char>> {
    let t = trimmed(raw);
    if t == "0"@ || t == "normal"@ {
        Some("0"@)
    } else if t == "90"@ {
        Some("90"@)
    } else if t == "180"@ {
        Some("180"@)
    } else if t == "270"@ {
        Some("270"@)
    } else {
        None
    }
}

/// Normalises an operator-facing rotation to `"0"`, `"90"`, `"180"` or
/// `"270"`. `"normal"` is another name of `"0"`.
pub fn normalise_rotation(raw: &str) -> (r: Option<&'static str>)
    ensures
        match r {
            Some(n) => normalised(raw@) == Some(n@),
            None => normalised(raw@) is None,
        },
{
    let t = raw.trim();
    if same_text(t, "0") || same_text(t, "normal") {
        Some("0")
    } else if same_text(t, "90") {
        Some("90")
    } else if same_text(t, "180") {
        Some("180")
    } else if same_text(t, "270") {
        Some("270")
    } else {
        None
    }
}

/// The text that a flag is written as.
pub open spec fn flag_text(flag: bool) -> Seq<char> {
    if flag {
        "true"@
    } else {
        "false"@
    }
}

fn flag_str(flag: bool) -> (r: &'static str)
    ensures
        r@ == flag_text(flag),
{
    if flag {
        "true"
    } else {
        "false"
    }
}

/// The flag that a text writes, where it writes one.
pub open spec fn flag_value(raw: Seq<char>) -> Option<bool> {
    if raw == "true"@ || raw == "1"@ || raw == "yes"@ {
        Some(true)
    } else if raw == "false"@ || raw == "0"@ || raw == "no"@ {
        Some(false)
    } else {
        None
    }
}

/// Reads a flag under any of its documented names.
pub fn parse_bool(raw: &str) -> (r: Option<bool>)
    ensures
        r == flag_value(raw@),
{
    if same_text(raw, "true") || same_text(raw, "1") || same_text(raw, "yes") {
        Some(true)
    } else if same_text(raw, "false") || same_text(raw, "0") || same_text(raw, "no") {
        Some(false)
    } else {
        None
    }
}

/// What comes of setting the rotation of the display.
pub open spec fn display_rotation_outcome(
    rotation: Seq<char>,
    r: Result<Change<&'static str>, KioskConfigError>,
) -> bool {
    match r {
        Ok(change) => normalised(rotation) == Some(change.applied@) && step_models(change.steps@)
            == overlay_steps(OverlayKey::DisplayRotation, change.applied@),
        Err(KioskConfigError::InvalidRotation(text)) => normalised(rotation) is None && text@
            == rotation,
        Err(_) => false,
    }
}

/// Persists the rotation of the display. The applied value is the canonical
/// one.
pub fn set_display_rotation(rotation: &str) -> (r: Result<Change<&'static str>, KioskConfigError>)
    ensures
        display_rotation_outcome(rotation@, r),
{
    match normalise_rotation(rotation) {
        Some(n) => Ok(
            Change { applied: n, steps: write_overlay_atomic(OverlayKey::DisplayRotation, n) },
        ),
        None => Err(KioskConfigError::InvalidRotation(rotation.to_owned())),
    }
}

/// Why a brightness was refused, in words.
pub open spec fn brightness_refusal(percent: u8) -> Seq<char> {
    "brightness percent "@ + decimal(percent as nat) + " out of 0..=100"@
}

/// What comes of setting the backlight.
pub open spec fn brightness_outcome(percent: u8, r: Result<Change<u8>, KioskConfigError>) -> bool {
    match r {
        Ok(change) => percent <= 100 && change.applied == percent && step_models(change.steps@)
            == overlay_steps(OverlayKey::Brightness, decimal(percent as nat)),
        Err(KioskConfigError::InvalidRotation(text)) => percent > 100 && text@
            == brightness_refusal(percent),
        Err(_) => false,
    }
}

/// Persists the backlight percentage, which is at most 100.
pub fn set_brightness(percent: u8) -> (r: Result<Change<u8>, KioskConfigError>)
    ensures
        brightness_outcome(percent, r),
{
    if percent > 100 {
        let mut text = "brightness percent ".to_owned();
        text.append(decimal_string(percent as u64).as_str());
        text.append(" out of 0..=100");
        return Err(KioskConfigError::InvalidRotation(text));
    }
    let text = decimal_string(percent as u64);
    Ok(
        Change {
            applied: percent,
            steps: write_overlay_atomic(OverlayKey::Brightness, text.as_str()),
        },
    )
}

/// Why a sleep timeout was refused, in words.
pub open spec fn sleep_timeout_refusal(seconds: u32) -> Seq<char> {
    "sleep_timeout_seconds "@ + decimal(seconds as nat) + ": minimum non-zero value is 5"@
}

/// What comes of setting the idle time before sleep.
pub open spec fn sleep_timeout_outcome(
    seconds: u32,
    r: Result<Change<u32>, KioskConfigError>,
) -> bool {
    match r {
        Ok(change) => (seconds == 0 || seconds >= 5) && change.applied == seconds && step_models(
            change.steps@,
        ) == overlay_steps(OverlayKey::SleepTimeoutSeconds, decimal(seconds as nat)),
        Err(KioskConfigError::InvalidRotation(text)) => 0 < seconds < 5 && text@
            == sleep_timeout_refusal(seconds),
        Err(_) => false,
    }
}

/// Persists the idle time before sleep. Zero means that the screen never
/// sleeps; any other value is at least 5 seconds.
pub fn set_sleep_timeout(seconds: u32) -> (r: Result<Change<u32>, KioskConfigError>)
    ensures
        sleep_timeout_outcome(seconds, r),
{
    if seconds != 0 && seconds < 5 {
        let mut text = "sleep_timeout_seconds ".to_owned();
        text.append(decimal_string(seconds as u64).as_str());
        text.append(": minimum non-zero value is 5");
        return Err(KioskConfigError::InvalidRotation(text));
    }
    let text = decimal_string(seconds as u64);
    Ok(
        Change {
            applied: seconds,
            steps: write_overlay_atomic(OverlayKey::SleepTimeoutSeconds, text.as_str()),
        },
    )
}

/// What comes of setting whether playback keeps the screen awake.
pub open spec fn inhibit_wish_outcome(enabled: bool, r: Change<bool>) -> bool {
    r.applied == enabled && step_models(r.steps@) == overlay_steps(
        OverlayKey::SleepInhibitWhilePlaying,
        flag_text(enabled),
    )
}

/// Persists whether playback keeps the screen awake.
pub fn set_sleep_inhibit_while_playing(enabled: bool) -> (r: Change<bool>)
    ensures
        inhibit_wish_outcome(enabled, r),
{
    Change {
        applied: enabled,
        steps: write_overlay_atomic(OverlayKey::SleepInhibitWhilePlaying, flag_str(enabled)),
    }
}

/// What comes of setting whether playback is going on.
pub open spec fn inhibit_active_outcome(active: bool, r: Change<bool>) -> bool {
    r.applied == active && step_models(r.steps@) == overlay_steps(
        OverlayKey::SleepInhibitActive,
        flag_text(active),
    )
}

/// Persists whether playback is going on. It has a file of its own, so that
/// playback never overwrites the operator's wish.
pub fn set_sleep_inhibit_active(active: bool) -> (r: Change<bool>)
    ensures
        inhibit_active_outcome(active, r),
{
    Change {
        applied: active,
        steps: write_overlay_atomic(OverlayKey::SleepInhibitActive, flag_str(active)),
    }
}

/// What comes of setting the mirror of the kiosk unit's state.
pub open spec fn kiosk_enabled_outcome(enabled: bool, r: Change<bool>) -> bool {
    r.applied == enabled && step_models(r.steps@) == overlay_steps(
        OverlayKey::KioskEnabled,
        flag_text(enabled),
    )
}

/// Persists the mirror of the kiosk unit's state.
pub fn set_kiosk_enabled(enabled: bool) -> (r: Change<bool>)
    ensures
        kiosk_enabled_outcome(enabled, r),
{
    Change {
        applied: enabled,
        steps: write_overlay_atomic(OverlayKey::KioskEnabled, flag_str(enabled)),
    }
}

/// The steps that persist a touch calibration: rotation, then horizontal flip,
/// then vertical flip.
pub open spec fn touch_steps(rotation: Seq<char>, hflip: bool, vflip: bool) -> Seq<StepModel> {
    overlay_steps(OverlayKey::TouchRotation, rotation) + overlay_steps(
        OverlayKey::TouchHflip,
        flag_text(hflip),
    ) + overlay_steps(OverlayKey::TouchVflip, flag_text(vflip))
}

/// What comes of setting the touch calibration.
pub open spec fn touch_outcome(
    rotation: Seq<char>,
    hflip: bool,
    vflip: bool,
    r: Result<Change<(&'static str, bool, bool)>, KioskConfigError>,
) -> bool {
    match r {
        Ok(change) => normalised(rotation) == Some(change.applied.0@) && change.applied.1 == hflip
            && change.applied.2 == vflip && step_models(change.steps@) == touch_steps(
            change.applied.0@,
            hflip,
            vflip,
        ),
        Err(KioskConfigError::InvalidRotation(text)) => normalised(rotation) is None && text@
            == rotation,
        Err(_) => false,
    }
}

/// Persists the touch calibration triple, rotation first, so that a watcher of
/// the three files sees one burst.
pub fn set_touch_calibration(rotation: &str, hflip: bool, vflip: bool) -> (r: Result<
    Change<(&'static str, bool, bool)>,
    KioskConfigError,
>)
    ensures
        touch_outcome(rotation@, hflip, vflip, r),
{
    match normalise_rotation(rotation) {
        Some(n) => {
            let mut steps = write_overlay_atomic(OverlayKey::TouchRotation, n);
            let ghost first = steps@;
            let mut flips = write_overlay_atomic(OverlayKey::TouchHflip, flag_str(hflip));
            let ghost second = flips@;
            steps.append(&mut flips);
            let mut last = write_overlay_atomic(OverlayKey::TouchVflip, flag_str(vflip));
            let ghost third = last@;
            steps.append(&mut last);
            assert(steps@ == first + second + third);
            assert(step_models(steps@) =~= step_models(first) + step_models(second) + step_models(
                third,
            ));
            Ok(Change { applied: (n, hflip, vflip), steps })
        },
        None => Err(KioskConfigError::InvalidRotation(rotation.to_owned())),
    }
}

/// The trimmed text of an overlay that is present and not empty.
pub open spec fn overlay_value(texts: OverlayTexts, key: OverlayKey) -> Option<Seq<char>> {
    if texts.dom().contains(key) && trimmed(texts[key]).len() > 0 {
        Some(trimmed(texts[key]))
    } else {
        None
    }
}

/// Reads one overlay: its trimmed text, where the file is present and not
/// empty.
pub fn read_overlay(overlays: &Overlays, key: OverlayKey) -> (r: Option<String>)
    ensures
        match r {
            Some(text) => overlay_value(overlays@, key) == Some(text@),
            None => overlay_value(overlays@, key) is None,
        },
{
    match overlays.text(key) {
        Some(raw) => {
            let t = raw.trim();
            if t.is_empty() {
                None
            } else {
                Some(t.to_owned())
            }
        },
        None => None,
    }
}

/// The rotation that the overlay of `key` holds, where it holds one.
pub open spec fn rotation_in(texts: OverlayTexts, key: OverlayKey) -> Option<Seq<char>> {
    match overlay_value(texts, key) {
        Some(raw) => normalised(raw),
        None => None,
    }
}

/// The rotation that the overlay of `key` gives, or else the single-axis
/// overlay, or else the default.
pub open spec fn rotation_setting(texts: OverlayTexts, key: OverlayKey) -> Seq<char> {
    match rotation_in(texts, key) {
        Some(n) => n,
        None => match rotation_in(texts, OverlayKey::LegacyRotation) {
            Some(n) => n,
            None => DEFAULT_ROTATION@,
        },
    }
}

fn read_rotation(overlays: &Overlays, key: OverlayKey) -> (r: String)
    ensures
        r@ == rotation_setting(overlays@, key),
{
    if let Some(raw) = read_overlay(overlays, key) {
        if let Some(n) = normalise_rotation(raw.as_str()) {
            return n.to_owned();
        }
    }
    if let Some(raw) = read_overlay(overlays, OverlayKey::LegacyRotation) {
        if let Some(n) = normalise_rotation(raw.as_str()) {
            return n.to_owned();
        }
    }
    DEFAULT_ROTATION.to_owned()
}

/// The rotation of the display: its own overlay, then the single-axis one,
/// then the default.
pub fn read_display_rotation(overlays: &Overlays) -> (r: String)
    ensures
        r@ == rotation_setting(overlays@, OverlayKey::DisplayRotation),
{
    read_rotation(overlays, OverlayKey::DisplayRotation)
}

/// The rotation of the touch panel: its own overlay, then the single-axis one,
/// then the default.
pub fn read_touch_rotation(overlays: &Overlays) -> (r: String)
    ensures
        r@ == rotation_setting(overlays@, OverlayKey::TouchRotation),
{
    read_rotation(overlays, OverlayKey::TouchRotation)
}

/// The flag that the overlay of `key` holds, or else `default`.
pub open spec fn flag_setting(texts: OverlayTexts, key: OverlayKey, default: bool) -> bool {
    match overlay_value(texts, key) {
        Some(raw) => match flag_value(raw) {
            Some(flag) => flag,
            None => default,
        },
        None => default,
    }
}

fn read_flag(overlays: &Overlays, key: OverlayKey, default: bool) -> (r: bool)
    ensures
        r == flag_setting(overlays@, key, default),
{
    match read_overlay(overlays, key) {
        Some(raw) => match parse_bool(raw.as_str()) {
            Some(flag) => flag,
            None => default,
        },
        None => default,
    }
}

/// The horizontal flip of the touch panel.
pub fn read_touch_hflip(overlays: &Overlays) -> (r: bool)
    ensures
        r == flag_setting(overlays@, OverlayKey::TouchHflip, DEFAULT_TOUCH_FLIP),
{
    read_flag(overlays, OverlayKey::TouchHflip, DEFAULT_TOUCH_FLIP)
}

/// The vertical flip of the touch panel.
pub fn read_touch_vflip(overlays: &Overlays) -> (r: bool)
    ensures
        r == flag_setting(overlays@, OverlayKey::TouchVflip, DEFAULT_TOUCH_FLIP),
{
    read_flag(overlays, OverlayKey::TouchVflip, DEFAULT_TOUCH_FLIP)
}

/// The number that the overlay of `key` holds, or else `default`.
pub open spec fn number_setting(
    texts: OverlayTexts,
    key: OverlayKey,
    max: nat,
    default: nat,
) -> nat {
    match overlay_value(texts, key) {
        Some(raw) => match unsigned_value(raw, max) {
            Some(n) => n,
            None => default,
        },
        None => default,
    }
}

/// The backlight percentage. A number past 100 is reported as it stands, for
/// an operator to see.
pub fn read_brightness(overlays: &Overlays) -> (r: u8)
    ensures
        r == number_setting(
            overlays@,
            OverlayKey::Brightness,
            u8::MAX as nat,
            DEFAULT_BRIGHTNESS_PERCENT as nat,
        ),
{
    match read_overlay(overlays, OverlayKey::Brightness) {
        Some(raw) => match parse_unsigned(raw.as_str(), 255) {
            Some(n) => n as u8,
            None => DEFAULT_BRIGHTNESS_PERCENT,
        },
        None => DEFAULT_BRIGHTNESS_PERCENT,
    }
}

/// The idle time before sleep, in seconds.
pub fn read_sleep_timeout_seconds(overlays: &Overlays) -> (r: u32)
    ensures
        r == number_setting(
            overlays@,
            OverlayKey::SleepTimeoutSeconds,
            u32::MAX as nat,
            DEFAULT_SLEEP_TIMEOUT_SECONDS as nat,
        ),
{
    match read_overlay(overlays, OverlayKey::SleepTimeoutSeconds) {
        Some(raw) => match parse_unsigned(raw.as_str(), u32::MAX) {
            Some(n) => n,
            None => DEFAULT_SLEEP_TIMEOUT_SECONDS,
        },
        None => DEFAULT_SLEEP_TIMEOUT_SECONDS,
    }
}

/// Whether playback keeps the screen awake.
pub fn read_sleep_inhibit_while_playing(overlays: &Overlays) -> (r: bool)
    ensures
        r == flag_setting(
            overlays@,
            OverlayKey::SleepInhibitWhilePlaying,
            DEFAULT_SLEEP_INHIBIT_WHILE_PLAYING,
        ),
{
    read_flag(
        overlays,
        OverlayKey::SleepInhibitWhilePlaying,
        DEFAULT_SLEEP_INHIBIT_WHILE_PLAYING,
    )
}

/// Whether the kiosk unit is enabled.
pub fn read_kiosk_enabled(overlays: &Overlays) -> (r: bool)
    ensures
        r == flag_setting(overlays@, OverlayKey::KioskEnabled, DEFAULT_KIOSK_ENABLED),
{
    read_flag(overlays, OverlayKey::KioskEnabled, DEFAULT_KIOSK_ENABLED)
}

/// The touch calibration triple.
#[derive(Debug, Clone, PartialEq, Eq)]
pub struct TouchState {
    /// `"0"`, `"90"`, `"180"` or `"270"`.
    pub rotation: String,
    /// The horizontal flip, applied after the rotation.
    pub hflip: bool,
    /// The vertical flip, applied after the rotation.
    pub vflip: bool,
}

/// Everything that an operator can see of the kiosk's settings.
#[derive(Debug, Clone, PartialEq, Eq)]
pub struct DisplayState {
    /// The rotation of the display.
    pub display_rotation: String,
    /// The touch calibration.
    pub touch: TouchState,
    /// The backlight, in percent.
    pub brightness_percent: u8,
    /// The idle time before sleep, in seconds. Zero means never.
    pub sleep_timeout_seconds: u32,
    /// Whether playback keeps the screen awake.
    pub sleep_inhibit_while_playing: bool,
    /// Whether the kiosk unit is enabled.
    pub enabled: bool,
}

/// The operator-visible settings, over text and numbers.
pub struct DisplayModel {
    pub display_rotation: Seq<char>,
    pub touch_rotation: Seq<char>,
    pub touch_hflip: bool,
    pub touch_vflip: bool,
    pub brightness_percent: nat,
    pub sleep_timeout_seconds: nat,
    pub sleep_inhibit_while_playing: bool,
    pub enabled: bool,
}

impl View for DisplayState {
    type V = DisplayModel;

    open spec fn view(&self) -> DisplayModel {
        DisplayModel {
            display_rotation: self.display_rotation@,
            touch_rotation: self.touch.rotation@,
            touch_hflip: self.touch.hflip,
            touch_vflip: self.touch.vflip,
            brightness_percent: self.brightness_percent as nat,
            sleep_timeout_seconds: self.sleep_timeout_seconds as nat,
            sleep_inhibit_while_playing: self.sleep_inhibit_while_playing,
            enabled: self.enabled,
        }
    }
}

/// The settings that a set of overlay texts gives.
pub open spec fn display_model(texts: OverlayTexts) -> DisplayModel {
    DisplayModel {
        display_rotation: rotation_setting(texts, OverlayKey::DisplayRotation),
        touch_rotation: rotation_setting(texts, OverlayKey::TouchRotation),
        touch_hflip: flag_setting(texts, OverlayKey::TouchHflip, DEFAULT_TOUCH_FLIP),
        touch_vflip: flag_setting(texts, OverlayKey::TouchVflip, DEFAULT_TOUCH_FLIP),
        brightness_percent: number_setting(
            texts,
            OverlayKey::Brightness,
            u8::MAX as nat,
            DEFAULT_BRIGHTNESS_PERCENT as nat,
        ),
        sleep_timeout_seconds: number_setting(
            texts,
            OverlayKey::SleepTimeoutSeconds,
            u32::MAX as nat,
            DEFAULT_SLEEP_TIMEOUT_SECONDS as nat,
        ),
        sleep_inhibit_while_playing: flag_setting(
            texts,
            OverlayKey::SleepInhibitWhilePlaying,
            DEFAULT_SLEEP_INHIBIT_WHILE_PLAYING,
        ),
        enabled: flag_setting(texts, OverlayKey::KioskEnabled, DEFAULT_KIOSK_ENABLED),
    }
}

/// Reads every setting. It cannot fail: what is absent, empty or not
/// understood counts as its default.
pub fn read_display_state(overlays: &Overlays) -> (r: DisplayState)
    ensures
        r@ == display_model(overlays@),
{
    DisplayState {
        display_rotation: read_display_rotation(overlays),
        touch: TouchState {
            rotation: read_touch_rotation(overlays),
            hflip: read_touch_hflip(overlays),
            vflip: read_touch_vflip(overlays),
        },
        brightness_percent: read_brightness(overlays),
        sleep_timeout_seconds: read_sleep_timeout_seconds(overlays),
        sleep_inhibit_while_playing: read_sleep_inhibit_while_playing(overlays),
        enabled: read_kiosk_enabled(overlays),
    }
}

/// A rotation that was normalised once is its own canonical form.
pub proof fn law_normalised_is_canonical(raw: Seq<char>)
    ensures
        match normalised(raw) {
            Some(n) => (n == "0"@ || n == "90"@ || n == "180"@ || n == "270"@) && normalised(n)
                == Some(n) && n.len() > 0 && trimmed(n) == n,
            None => true,
        },
{
    reveal_strlit("0");
    reveal_strlit("90");
    reveal_strlit("180");
    reveal_strlit("270");
    if let Some(n) = normalised(raw) {
        lemma_trimmed_is_identity(n);
        assert("0"@.len() != "90"@.len() && "180"@.len() != "90"@.len());
        assert("180"@[0] != "270"@[0]);
    }
}

/// A flag that was written reads back as it was.
pub proof fn law_flag_round_trip(flag: bool)
    ensures
        flag_value(flag_text(flag)) == Some(flag),
        flag_text(flag).len() > 0,
        trimmed(flag_text(flag)) == flag_text(flag),
{
    reveal_strlit("true");
    reveal_strlit("1");
    reveal_strlit("yes");
    reveal_strlit("false");
    lemma_trimmed_is_identity(flag_text(flag));
    assert("false"@.len() != "true"@.len() && "false"@.len() != "1"@.len() && "false"@.len()
        != "yes"@.len());
}

/// Every rotation that is read is one of the four canonical ones.
pub proof fn law_read_rotations_are_canonical(texts: OverlayTexts, key: OverlayKey)
    ensures
        rotation_setting(texts, key) == "0"@ || rotation_setting(texts, key) == "90"@
            || rotation_setting(texts, key) == "180"@ || rotation_setting(texts, key) == "270"@,
{
}

/// With no overlay at all, every setting has its default.
pub proof fn law_fresh_device_has_defaults()
    ensures
        display_model(Map::<OverlayKey, Seq<char>>::empty()) == (DisplayModel {
            display_rotation: DEFAULT_ROTATION@,
            touch_rotation: DEFAULT_ROTATION@,
            touch_hflip: DEFAULT_TOUCH_FLIP,
            touch_vflip: DEFAULT_TOUCH_FLIP,
            brightness_percent: DEFAULT_BRIGHTNESS_PERCENT as nat,
            sleep_timeout_seconds: DEFAULT_SLEEP_TIMEOUT_SECONDS as nat,
            sleep_inhibit_while_playing: DEFAULT_SLEEP_INHIBIT_WHILE_PLAYING,
            enabled: DEFAULT_KIOSK_ENABLED,
        }),
{
}

/// The settings that a reader of `files` sees.
pub open spec fn settings_in(files: Files) -> DisplayModel {
    display_model(overlay_texts(files))
}

/// After an accepted display rotation, a reader sees that rotation and
/// otherwise what it saw before.
pub proof fn law_display_rotation_reads_back(files: Files, raw: Seq<char>)
    requires
        normalised(raw) is Some,
    ensures
        settings_in(
            after_steps(files, overlay_steps(OverlayKey::DisplayRotation, normalised(raw)->0)),
        ) == (DisplayModel { display_rotation: normalised(raw)->0, ..settings_in(files) }),
{
    law_normalised_is_canonical(raw);
    law_texts_after_overlay_write(files, OverlayKey::DisplayRotation, normalised(raw)->0);
}

/// After an accepted brightness, a reader sees it and otherwise what it saw
/// before.
pub proof fn law_brightness_reads_back(files: Files, percent: u8)
    ensures
        settings_in(
            after_steps(files, overlay_steps(OverlayKey::Brightness, decimal(percent as nat))),
        ) == (DisplayModel { brightness_percent: percent as nat, ..settings_in(files) }),
{
    lemma_decimal_writes(percent as nat);
    lemma_decimal_round_trip(percent as nat, u8::MAX as nat);
    law_texts_after_overlay_write(files, OverlayKey::Brightness, decimal(percent as nat));
}

/// After an accepted sleep timeout, a reader sees it and otherwise what it saw
/// before.
pub proof fn law_sleep_timeout_reads_back(files: Files, seconds: u32)
    ensures
        settings_in(
            after_steps(
                files,
                overlay_steps(OverlayKey::SleepTimeoutSeconds, decimal(seconds as nat)),
            ),
        ) == (DisplayModel { sleep_timeout_seconds: seconds as nat, ..settings_in(files) }),
{
    lemma_decimal_writes(seconds as nat);
    lemma_decimal_round_trip(seconds as nat, u32::MAX as nat);
    law_texts_after_overlay_write(files, OverlayKey::SleepTimeoutSeconds, decimal(seconds as nat));
}

/// After the operator's wish about playback is set, a reader sees it and
/// otherwise what it saw before.
pub proof fn law_sleep_inhibit_while_playing_reads_back(files: Files, enabled: bool)
    ensures
        settings_in(
            after_steps(
                files,
                overlay_steps(OverlayKey::SleepInhibitWhilePlaying, flag_text(enabled)),
            ),
        ) == (DisplayModel { sleep_inhibit_while_playing: enabled, ..settings_in(files) }),
{
    law_flag_round_trip(enabled);
    law_texts_after_overlay_write(
        files,
        OverlayKey::SleepInhibitWhilePlaying,
        flag_text(enabled),
    );
}

/// A playback transition changes nothing that the operator has set.
pub proof fn law_playback_keeps_the_operators_settings(files: Files, active: bool)
    ensures
        settings_in(
            after_steps(files, overlay_steps(OverlayKey::SleepInhibitActive, flag_text(active))),
        ) == settings_in(files),
{
    law_texts_after_overlay_write(files, OverlayKey::SleepInhibitActive, flag_text(active));
}

/// After the kiosk mirror is set, a reader sees it and otherwise what it saw
/// before.
pub proof fn law_kiosk_enabled_reads_back(files: Files, enabled: bool)
    ensures
        settings_in(
            after_steps(files, overlay_steps(OverlayKey::KioskEnabled, flag_text(enabled))),
        ) == (DisplayModel { enabled, ..settings_in(files) }),
{
    law_flag_round_trip(enabled);
    law_texts_after_overlay_write(files, OverlayKey::KioskEnabled, flag_text(enabled));
}

/// After an accepted touch calibration, a reader sees the triple and otherwise
/// what it saw before.
pub proof fn law_touch_calibration_reads_back(
    files: Files,
    raw: Seq<char>,
    hflip: bool,
    vflip: bool,
)
    requires
        normalised(raw) is Some,
    ensures
        settings_in(after_steps(files, touch_steps(normalised(raw)->0, hflip, vflip))) == (
        DisplayModel {
            touch_rotation: normalised(raw)->0,
            touch_hflip: hflip,
            touch_vflip: vflip,
            ..settings_in(files)
        }),
{
    let rotation = overlay_steps(OverlayKey::TouchRotation, normalised(raw)->0);
    let horizontal = overlay_steps(OverlayKey::TouchHflip, flag_text(hflip));
    let vertical = overlay_steps(OverlayKey::TouchVflip, flag_text(vflip));
    law_normalised_is_canonical(raw);
    law_flag_round_trip(hflip);
    law_flag_round_trip(vflip);
    lemma_after_steps_append(files, rotation + horizontal, vertical);
    lemma_after_steps_append(files, rotation, horizontal);
    law_texts_after_overlay_write(files, OverlayKey::TouchRotation, normalised(raw)->0);
    let one = after_steps(files, rotation);
    law_texts_after_overlay_write(one, OverlayKey::TouchHflip, flag_text(hflip));
    let two = after_steps(one, horizontal);
    law_texts_after_overlay_write(two, OverlayKey::TouchVflip, flag_text(vflip));
}

/// The text that a touch calibration writes to the file of `key`, where it
/// writes one.
pub open spec fn touch_text(
    key: OverlayKey,
    rotation: Seq<char>,
    hflip: bool,
    vflip: bool,
) -> Option<Seq<char>> {
    match key {
        OverlayKey::TouchRotation => Some(rotation),
        OverlayKey::TouchHflip => Some(flag_text(hflip)),
        OverlayKey::TouchVflip => Some(flag_text(vflip)),
        _ => None,
    }
}

/// However far the steps of a touch calibration have come, a reader of any
/// setting's file finds the old text, or the new one where the calibration
/// writes that setting.
pub proof fn law_touch_write_is_atomic(
    files: Files,
    rotation: Seq<char>,
    hflip: bool,
    vflip: bool,
    done: int,
    seen: Files,
    key: OverlayKey,
)
    requires
        0 <= done < touch_steps(rotation, hflip, vflip).len(),
        visible_during(
            after_steps(files, touch_steps(rotation, hflip, vflip).take(done)),
            touch_steps(rotation, hflip, vflip)[done],
            seen,
        ),
    ensures
        text_at(seen, key.path_text()) == text_at(files, key.path_text()) || (touch_text(
            key,
            rotation,
            hflip,
            vflip,
        ) is Some && text_at(seen, key.path_text()) == touch_text(key, rotation, hflip, vflip)),
{
    let all = touch_steps(rotation, hflip, vflip);
    let first = overlay_steps(OverlayKey::TouchRotation, rotation);
    let second = overlay_steps(OverlayKey::TouchHflip, flag_text(hflip));
    let third = overlay_steps(OverlayKey::TouchVflip, flag_text(vflip));
    let one = after_steps(files, first);
    let two = after_steps(one, second);
    law_overlay_write_replaces_one_file(files, OverlayKey::TouchRotation, rotation, key);
    law_overlay_write_replaces_one_file(one, OverlayKey::TouchHflip, flag_text(hflip), key);
    if done < 3 {
        assert(all.take(done) =~= first.take(done));
        law_overlay_write_is_atomic(files, OverlayKey::TouchRotation, rotation, done, seen, key);
    } else if done < 6 {
        assert(all.take(done) =~= first + second.take(done - 3));
        lemma_after_steps_append(files, first, second.take(done - 3));
        law_overlay_write_is_atomic(
            one,
            OverlayKey::TouchHflip,
            flag_text(hflip),
            done - 3,
            seen,
            key,
        );
    } else {
        assert(all.take(done) =~= (first + second) + third.take(done - 6));
        lemma_after_steps_append(files, first + second, third.take(done - 6));
        lemma_after_steps_append(files, first, second);
        law_overlay_write_is_atomic(
            two,
            OverlayKey::TouchVflip,
            flag_text(vflip),
            done - 6,
            seen,
            key,
        );
    }
}

/// Whether a change, once its steps are carried out on any files, leaves a
/// reader with the settings `expected` of them, and does so safely.
pub open spec fn leads_to<T>(
    change: Change<T>,
    expected: spec_fn(DisplayModel) -> DisplayModel,
) -> bool {
    &&& never_torn(step_models(change.steps@))
    &&& directory_first(step_models(change.steps@))
    &&& forall|files: Files|
        settings_in(#[trigger] after_steps(files, step_models(change.steps@))) == expected(
            settings_in(files),
        )
}

/// A rotation is accepted under five names, with white space around them or
/// without: the four canonical ones, which stand for themselves, and `normal`,
/// which stands for 0.
pub proof fn law_rotations_have_five_names(raw: Seq<char>, n: Seq<char>)
    ensures
        normalised(raw) == Some(n) <==> {
            ||| n == "0"@ && (trimmed(raw) == "0"@ || trimmed(raw) == "normal"@)
            ||| n == trimmed(raw) && (n == "90"@ || n == "180"@ || n == "270"@)
        },
        normalised(trimmed(raw)) == normalised(raw),
{
    reveal_strlit("0");
    reveal_strlit("90");
    reveal_strlit("180");
    reveal_strlit("270");
    reveal_strlit("normal");
    assert("0"@.len() == 1 && "90"@.len() == 2 && "180"@.len() == 3 && "270"@.len() == 3
        && "normal"@.len() == 6);
    assert("180"@[0] != "270"@[0]);
    law_trimming_is_done_at_once(raw);
}

/// A flag has three names for each of its values and no others.
pub proof fn law_flags_have_three_names_each(raw: Seq<char>)
    ensures
        flag_value(raw) == Some(true) <==> raw == "true"@ || raw == "1"@ || raw == "yes"@,
        flag_value(raw) == Some(false) <==> raw == "false"@ || raw == "0"@ || raw == "no"@,
{
    reveal_strlit("true");
    reveal_strlit("1");
    reveal_strlit("yes");
    reveal_strlit("false");
    reveal_strlit("0");
    reveal_strlit("no");
    assert("true"@.len() == 4 && "1"@.len() == 1 && "yes"@.len() == 3 && "false"@.len() == 5
        && "0"@.len() == 1 && "no"@.len() == 2);
    assert("1"@[0] != "0"@[0]);
}

/// A rotation is accepted exactly where it is one; then a reader sees it as the
/// display's rotation, and nothing else has changed.
pub proof fn law_display_rotation_is_set(
    raw: Seq<char>,
    r: Result<Change<&'static str>, KioskConfigError>,
)
    requires
        display_rotation_outcome(raw, r),
    ensures
        r is Ok <==> normalised(raw) is Some,
        r matches Ok(change) ==> Some(change.applied@) == normalised(raw) && leads_to(
            change,
            |before: DisplayModel|
                DisplayModel { display_rotation: normalised(raw)->0, ..before },
        ),
        r matches Err(e) ==> (e matches KioskConfigError::InvalidRotation(text) && text@ == raw),
{
    if let Ok(change) = r {
        let n = normalised(raw)->0;
        law_overlay_steps_are_safe(OverlayKey::DisplayRotation, n);
        assert forall|files: Files|
            settings_in(#[trigger] after_steps(files, step_models(change.steps@))) == (
            DisplayModel { display_rotation: n, ..settings_in(files) }) by {
            law_display_rotation_reads_back(files, raw);
        }
    }
}

/// A backlight percentage is accepted exactly up to 100; then a reader sees it,
/// and nothing else has changed.
pub proof fn law_brightness_is_set(percent: u8, r: Result<Change<u8>, KioskConfigError>)
    requires
        brightness_outcome(percent, r),
    ensures
        r is Ok <==> percent <= 100,
        r matches Ok(change) ==> change.applied == percent && leads_to(
            change,
            |before: DisplayModel| DisplayModel { brightness_percent: percent as nat, ..before },
        ),
        r matches Err(e) ==> (e matches KioskConfigError::InvalidRotation(text) && text@
            == "brightness percent "@ + decimal(percent as nat) + " out of 0..=100"@),
{
    if let Ok(change) = r {
        law_overlay_steps_are_safe(OverlayKey::Brightness, decimal(percent as nat));
        assert forall|files: Files|
            settings_in(#[trigger] after_steps(files, step_models(change.steps@))) == (
            DisplayModel { brightness_percent: percent as nat, ..settings_in(files) }) by {
            law_brightness_reads_back(files, percent);
        }
    }
}

/// A sleep timeout is accepted exactly where it is zero or at least five
/// seconds; then a reader sees it, and nothing else has changed.
pub proof fn law_sleep_timeout_is_set(seconds: u32, r: Result<Change<u32>, KioskConfigError>)
    requires
        sleep_timeout_outcome(seconds, r),
    ensures
        r is Err <==> 1 <= seconds <= 4,
        r matches Ok(change) ==> change.applied == seconds && leads_to(
            change,
            |before: DisplayModel| DisplayModel { sleep_timeout_seconds: seconds as nat, ..before },
        ),
        r matches Err(e) ==> (e matches KioskConfigError::InvalidRotation(text) && text@
            == "sleep_timeout_seconds "@ + decimal(seconds as nat)
            + ": minimum non-zero value is 5"@),
{
    if let Ok(change) = r {
        law_overlay_steps_are_safe(OverlayKey::SleepTimeoutSeconds, decimal(seconds as nat));
        assert forall|files: Files|
            settings_in(#[trigger] after_steps(files, step_models(change.steps@))) == (
            DisplayModel { sleep_timeout_seconds: seconds as nat, ..settings_in(files) }) by {
            law_sleep_timeout_reads_back(files, seconds);
        }
    }
}

/// Once the operator's wish about playback is set, a reader sees it, and
/// nothing else has changed.
pub proof fn law_inhibit_wish_is_set(enabled: bool, r: Change<bool>)
    requires
        inhibit_wish_outcome(enabled, r),
    ensures
        r.applied == enabled,
        leads_to(
            r,
            |before: DisplayModel| DisplayModel { sleep_inhibit_while_playing: enabled, ..before },
        ),
{
    law_overlay_steps_are_safe(OverlayKey::SleepInhibitWhilePlaying, flag_text(enabled));
    assert forall|files: Files|
        settings_in(#[trigger] after_steps(files, step_models(r.steps@))) == (DisplayModel {
            sleep_inhibit_while_playing: enabled,
            ..settings_in(files)
        }) by {
        law_sleep_inhibit_while_playing_reads_back(files, enabled);
    }
}

/// Once a playback transition is set, its file says so in a flag's first name,
/// and nothing that the operator sees has changed.
pub proof fn law_inhibit_active_is_set(active: bool, r: Change<bool>)
    requires
        inhibit_active_outcome(active, r),
    ensures
        r.applied == active,
        leads_to(r, |before: DisplayModel| before),
        forall|files: Files|
            text_at(
                #[trigger] after_steps(files, step_models(r.steps@)),
                OverlayKey::SleepInhibitActive.path_text(),
            ) == Some(
                if active {
                    "true"@
                } else {
                    "false"@
                },
            ),
{
    law_overlay_steps_are_safe(OverlayKey::SleepInhibitActive, flag_text(active));
    assert forall|files: Files|
        settings_in(#[trigger] after_steps(files, step_models(r.steps@))) == settings_in(files)
            && text_at(
            after_steps(files, step_models(r.steps@)),
            OverlayKey::SleepInhibitActive.path_text(),
        ) == Some(flag_text(active)) by {
        law_playback_keeps_the_operators_settings(files, active);
        law_overlay_write_replaces_one_file(
            files,
            OverlayKey::SleepInhibitActive,
            flag_text(active),
            OverlayKey::SleepInhibitActive,
        );
    }
}

/// Once the kiosk mirror is set, a reader sees it, and nothing else has changed.
pub proof fn law_kiosk_enabled_is_set(enabled: bool, r: Change<bool>)
    requires
        kiosk_enabled_outcome(enabled, r),
    ensures
        r.applied == enabled,
        leads_to(r, |before: DisplayModel| DisplayModel { enabled, ..before }),
{
    law_overlay_steps_are_safe(OverlayKey::KioskEnabled, flag_text(enabled));
    assert forall|files: Files|
        settings_in(#[trigger] after_steps(files, step_models(r.steps@))) == (DisplayModel {
            enabled,
            ..settings_in(files)
        }) by {
        law_kiosk_enabled_reads_back(files, enabled);
    }
}

/// The steps of a touch calibration create the directory first and leave no
/// torn file behind.
pub proof fn law_touch_steps_are_safe(rotation: Seq<char>, hflip: bool, vflip: bool)
    ensures
        never_torn(touch_steps(rotation, hflip, vflip)),
        directory_first(touch_steps(rotation, hflip, vflip)),
{
    let steps = touch_steps(rotation, hflip, vflip);
    assert forall|files: Files, done: int, seen: Files, key: OverlayKey|
        #![trigger visible_during(after_steps(files, steps.take(done)), steps[done], seen), key.path_text()]
        0 <= done < steps.len() && visible_during(
            after_steps(files, steps.take(done)),
            steps[done],
            seen,
        ) implies text_at(seen, key.path_text()) == text_at(files, key.path_text()) || text_at(
        seen,
        key.path_text(),
    ) == text_at(after_steps(files, steps), key.path_text()) by {
        law_touch_write_is_atomic(files, rotation, hflip, vflip, done, seen, key);
        lemma_texts_after_touch(files, rotation, hflip, vflip, key);
    }
    law_overlay_steps_are_safe(OverlayKey::TouchRotation, rotation);
    assert(steps[0] == overlay_steps(OverlayKey::TouchRotation, rotation)[0]);
}

proof fn lemma_texts_after_touch(
    files: Files,
    rotation: Seq<char>,
    hflip: bool,
    vflip: bool,
    key: OverlayKey,
)
    ensures
        text_at(after_steps(files, touch_steps(rotation, hflip, vflip)), key.path_text())
            == match touch_text(key, rotation, hflip, vflip) {
            Some(text) => Some(text),
            None => text_at(files, key.path_text()),
        },
{
    let first = overlay_steps(OverlayKey::TouchRotation, rotation);
    let second = overlay_steps(OverlayKey::TouchHflip, flag_text(hflip));
    let third = overlay_steps(OverlayKey::TouchVflip, flag_text(vflip));
    let one = after_steps(files, first);
    let two = after_steps(one, second);
    lemma_after_steps_append(files, first + second, third);
    lemma_after_steps_append(files, first, second);
    law_overlay_write_replaces_one_file(files, OverlayKey::TouchRotation, rotation, key);
    law_overlay_write_replaces_one_file(one, OverlayKey::TouchHflip, flag_text(hflip), key);
    law_overlay_write_replaces_one_file(two, OverlayKey::TouchVflip, flag_text(vflip), key);
}

/// A touch calibration is accepted exactly where its rotation is one; then a
/// reader sees its triple, and nothing else has changed.
pub proof fn law_touch_calibration_is_set(
    raw: Seq<char>,
    hflip: bool,
    vflip: bool,
    r: Result<Change<(&'static str, bool, bool)>, KioskConfigError>,
)
    requires
        touch_outcome(raw, hflip, vflip, r),
    ensures
        r is Ok <==> normalised(raw) is Some,
        r matches Ok(change) ==> {
            &&& Some(change.applied.0@) == normalised(raw)
            &&& change.applied.1 == hflip
            &&& change.applied.2 == vflip
            &&& leads_to(
                change,
                |before: DisplayModel|
                    DisplayModel {
                        touch_rotation: normalised(raw)->0,
                        touch_hflip: hflip,
                        touch_vflip: vflip,
                        ..before
                    },
            )
        },
        r matches Err(e) ==> (e matches KioskConfigError::InvalidRotation(text) && text@ == raw),
{
    if let Ok(change) = r {
        law_touch_steps_are_safe(normalised(raw)->0, hflip, vflip);
        assert forall|files: Files|
            settings_in(#[trigger] after_steps(files, step_models(change.steps@))) == (
            DisplayModel {
                touch_rotation: normalised(raw)->0,
                touch_hflip: hflip,
                touch_vflip: vflip,
                ..settings_in(files)
            }) by {
            law_touch_calibration_reads_back(files, raw, hflip, vflip);
        }
    }
}

/// A rotation is read from its own overlay where that holds one, or else from
/// the single-axis overlay where that does, and is 0 otherwise. Nothing else
/// has a say in it.
pub proof fn law_rotations_fall_back(texts: OverlayTexts, key: OverlayKey)
    ensures
        texts.dom().contains(key) && normalised(texts[key]) is Some ==> Some(
            rotation_setting(texts, key),
        ) == normalised(texts[key]),
        !(texts.dom().contains(key) && normalised(texts[key]) is Some) && texts.dom().contains(
            OverlayKey::LegacyRotation,
        ) && normalised(texts[OverlayKey::LegacyRotation]) is Some ==> Some(
            rotation_setting(texts, key),
        ) == normalised(texts[OverlayKey::LegacyRotation]),
        !(texts.dom().contains(key) && normalised(texts[key]) is Some) && !(texts.dom().contains(
            OverlayKey::LegacyRotation,
        ) && normalised(texts[OverlayKey::LegacyRotation]) is Some) ==> rotation_setting(texts, key)
            == "0"@,
{
    reveal_strlit("0");
    reveal_strlit("90");
    reveal_strlit("180");
    reveal_strlit("270");
    reveal_strlit("normal");
    law_trimming_is_done_at_once(texts[key]);
    law_trimming_is_done_at_once(texts[OverlayKey::LegacyRotation]);
}

/// A flag is what its overlay says, trimmed, where that is a flag's name, and
/// its default otherwise.
pub proof fn law_flags_fall_back(texts: OverlayTexts, key: OverlayKey, default: bool, flag: bool)
    ensures
        texts.dom().contains(key) && flag_value(trimmed(texts[key])) == Some(flag)
            ==> flag_setting(texts, key, default) == flag,
        !(texts.dom().contains(key) && flag_value(trimmed(texts[key])) is Some) ==> flag_setting(
            texts,
            key,
            default,
        ) == default,
{
    reveal_strlit("true");
    reveal_strlit("1");
    reveal_strlit("yes");
    reveal_strlit("false");
    reveal_strlit("0");
    reveal_strlit("no");
}

/// A number is what its overlay says, trimmed, where that is a number in range,
/// and its default otherwise.
pub proof fn law_numbers_fall_back(
    texts: OverlayTexts,
    key: OverlayKey,
    max: nat,
    default: nat,
    n: nat,
)
    ensures
        texts.dom().contains(key) && unsigned_value(trimmed(texts[key]), max) == Some(n)
            ==> number_setting(texts, key, max, default) == n,
        !(texts.dom().contains(key) && unsigned_value(trimmed(texts[key]), max) is Some)
            ==> number_setting(texts, key, max, default) == default,
{
}

/// Each setting is read from its own overlay: one overlay more or less changes
/// no setting but its own, and the single-axis one none but the rotations.
pub proof fn law_settings_are_read_apart(texts: OverlayTexts, key: OverlayKey, text: Seq<char>)
    ensures
        ({
            let before = display_model(texts);
            let after = display_model(texts.insert(key, text));
            &&& key is DisplayRotation || key is LegacyRotation || after.display_rotation
                == before.display_rotation
            &&& key is TouchRotation || key is LegacyRotation || after.touch_rotation
                == before.touch_rotation
            &&& key is TouchHflip || after.touch_hflip == before.touch_hflip
            &&& key is TouchVflip || after.touch_vflip == before.touch_vflip
            &&& key is Brightness || after.brightness_percent == before.brightness_percent
            &&& key is SleepTimeoutSeconds || after.sleep_timeout_seconds
                == before.sleep_timeout_seconds
            &&& key is SleepInhibitWhilePlaying || after.sleep_inhibit_while_playing
                == before.sleep_inhibit_while_playing
            &&& key is KioskEnabled || after.enabled == before.enabled
        }),
{
}

/// What an operator sees of any overlay texts: flags by their names, numbers in
/// the range of their type, and defaults for all that is not understood.
pub proof fn law_display_reads_every_setting(texts: OverlayTexts)
    ensures
        ({
            let seen = display_model(texts);
            let says = |key: OverlayKey, flag: bool|
                texts.dom().contains(key) && flag_value(trimmed(texts[key])) == Some(flag);
            &&& seen.touch_hflip == says(OverlayKey::TouchHflip, true)
            &&& seen.touch_vflip == says(OverlayKey::TouchVflip, true)
            &&& seen.sleep_inhibit_while_playing == !says(
                OverlayKey::SleepInhibitWhilePlaying,
                false,
            )
            &&& seen.enabled == !says(OverlayKey::KioskEnabled, false)
            &&& seen.brightness_percent == if texts.dom().contains(OverlayKey::Brightness)
                && unsigned_value(trimmed(texts[OverlayKey::Brightness]), 255) is Some {
                unsigned_value(trimmed(texts[OverlayKey::Brightness]), 255)->0
            } else {
                80
            }
            &&& seen.sleep_timeout_seconds == if texts.dom().contains(
                OverlayKey::SleepTimeoutSeconds,
            ) && unsigned_value(trimmed(texts[OverlayKey::SleepTimeoutSeconds]), 0xffff_ffff)
                is Some {
                unsigned_value(trimmed(texts[OverlayKey::SleepTimeoutSeconds]), 0xffff_ffff)->0
            } else {
                120
            }
        }),
{
    law_flags_fall_back(texts, OverlayKey::TouchHflip, false, true);
    law_flags_fall_back(texts, OverlayKey::TouchHflip, false, false);
    law_flags_fall_back(texts, OverlayKey::TouchVflip, false, true);
    law_flags_fall_back(texts, OverlayKey::TouchVflip, false, false);
    law_flags_fall_back(texts, OverlayKey::SleepInhibitWhilePlaying, true, true);
    law_flags_fall_back(texts, OverlayKey::SleepInhibitWhilePlaying, true, false);
    law_flags_fall_back(texts, OverlayKey::KioskEnabled, true, true);
    law_flags_fall_back(texts, OverlayKey::KioskEnabled, true, false);
}

/// An overlay says its trimmed text, where it is there and not blank.
pub proof fn law_overlays_are_read_trimmed(texts: OverlayTexts, key: OverlayKey, text: Seq<char>)
    ensures
        overlay_value(texts, key) == Some(text) <==> texts.dom().contains(key) && trimmed(
            texts[key],
        ) == text && text.len() > 0,
{
}

/// What an operator is shown is what stands in the state, member for member.
pub proof fn law_states_are_taken_whole(state: DisplayState)
    ensures
        state@.display_rotation == state.display_rotation@,
        state@.touch_rotation == state.touch.rotation@,
        state@.touch_hflip == state.touch.hflip,
        state@.touch_vflip == state.touch.vflip,
        state@.brightness_percent == state.brightness_percent,
        state@.sleep_timeout_seconds == state.sleep_timeout_seconds,
        state@.sleep_inhibit_while_playing == state.sleep_inhibit_while_playing,
        state@.enabled == state.enabled,
{
}

/// The display and the touch panel each follow their own rotation.
pub proof fn law_display_and_touch_rotate_apart(texts: OverlayTexts)
    ensures
        display_model(texts).display_rotation == rotation_setting(
            texts,
            OverlayKey::DisplayRotation,
        ),
        display_model(texts).touch_rotation == rotation_setting(texts, OverlayKey::TouchRotation),
{
}

} // verus!
