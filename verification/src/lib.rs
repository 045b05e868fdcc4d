//! The decision core of an on-device kiosk shell: operator settings and touch
//! calibration, the session client, the navigation policy, and what the shell
//! does around the web view.
//!
//! Nothing here touches the file system, the network, the clock or the
//! display. The shell reads and acts; the library is handed plain values and
//! gives plain values back, with a proved contract on each function.

pub mod binary64;
pub mod calibration;
pub mod js;
pub mod messages;
pub mod mint;
pub mod nav_policy;
pub mod overlay;
pub mod settings;
pub mod shell;
pub mod text;

pub use calibration::{
    derive_and_apply_touch_calibration, derive_touch_calibration, matrix_for,
    DerivedTouchCalibration, TouchSample,
};
pub use js::{js_string_literal, local_storage_inject_script, BEARER_STORAGE_KEY};
pub use mint::{
    kiosk_sock_path, parse_mint_response, renew_at_ms, MintError, MintedSession,
    DEFAULT_KIOSK_SOCK,
};
pub use nav_policy::{navigation_allowed, parse_allowed_origin};
pub use overlay::{OverlayKey, Overlays, OVERLAY_DIR};
pub use settings::{
    normalise_rotation, parse_bool, read_brightness, read_display_rotation, read_display_state,
    read_kiosk_enabled, read_sleep_inhibit_while_playing, read_sleep_timeout_seconds,
    read_touch_hflip, read_touch_rotation, read_touch_vflip, set_brightness, set_display_rotation,
    set_kiosk_enabled, set_sleep_inhibit_active, set_sleep_inhibit_while_playing,
    set_sleep_timeout, set_touch_calibration, DisplayState, KioskConfigError, TouchState,
    DEFAULT_BRIGHTNESS_PERCENT, DEFAULT_KIOSK_ENABLED, DEFAULT_ROTATION,
    DEFAULT_SLEEP_INHIBIT_ACTIVE, DEFAULT_SLEEP_INHIBIT_WHILE_PLAYING,
    DEFAULT_SLEEP_TIMEOUT_SECONDS, DEFAULT_TOUCH_FLIP,
};
