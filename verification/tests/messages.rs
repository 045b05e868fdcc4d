use evo_kiosk::binary64::ONE;
use evo_kiosk::calibration::{DerivedTouchCalibration, TouchSample};
use evo_kiosk::messages::{plan_for, PageMessage, Plan, TouchRequest};
use evo_kiosk::overlay::FsStep;
use evo_kiosk::shell::{wizard_result, wizard_result_script};
use evo_kiosk::KioskConfigError;

const FAILED: &str = "(() => { const detail = {\"ok\":false}; window.evoTouchCalibrationDerived = detail; window.dispatchEvent(new CustomEvent('evo:touch-calibration-derived', {detail})); })();";

fn written(plan: &Plan) -> Vec<(&str, &str)> {
    let Some(steps) = plan.steps() else {
        return Vec::new();
    };
    steps
        .iter()
        .filter_map(|s| match s {
            FsStep::WriteSynced { path, contents } => Some((
                path.rsplit('/').next().unwrap().trim_end_matches(".tmp"),
                contents.as_str(),
            )),
            _ => None,
        })
        .collect()
}

fn four(coordinate: f64) -> Vec<TouchSample> {
    let bits = coordinate.to_bits();
    let sample = TouchSample {
        target_x: bits,
        target_y: bits,
        actual_x: bits,
        actual_y: bits,
    };
    vec![sample; 4]
}

fn errors() -> [u64; 16] {
    let mut errors = [5.0f64.to_bits(); 16];
    errors[5] = ONE;
    errors
}

#[test]
fn the_display_rotation_is_the_bare_text() {
    let plan = plan_for(&PageMessage::DisplayRotation {
        text: "normal".to_string(),
    });
    assert_eq!(written(&plan), [("display_rotation", "0")]);
    assert_eq!(plan.reply(true, ""), None);
    let quoted = plan_for(&PageMessage::DisplayRotation {
        text: "\"90\"".to_string(),
    });
    assert!(matches!(
        &quoted,
        Plan::DisplayRotation(Err(KioskConfigError::InvalidRotation(t))) if t == "\"90\""
    ));
    assert!(written(&quoted).is_empty());
}

#[test]
fn missing_flips_are_not_set() {
    let plan = plan_for(&PageMessage::TouchCalibration {
        request: Some(TouchRequest {
            rotation: "90".to_string(),
            hflip: None,
            vflip: Some(true),
        }),
    });
    assert_eq!(
        written(&plan),
        [
            ("touch_rotation", "90"),
            ("touch_hflip", "false"),
            ("touch_vflip", "true")
        ]
    );
    assert_eq!(plan.reply(true, ""), None);
}

#[test]
fn unreadable_and_refused_requests_write_nothing() {
    let unreadable = plan_for(&PageMessage::TouchCalibration { request: None });
    assert!(written(&unreadable).is_empty());
    let refused = plan_for(&PageMessage::TouchCalibration {
        request: Some(TouchRequest {
            rotation: "45".to_string(),
            hflip: Some(true),
            vflip: Some(true),
        }),
    });
    assert!(written(&refused).is_empty());
    assert_eq!(refused.reply(true, ""), None);
}

#[test]
fn a_wizard_message_is_told_what_was_applied() {
    let plan = plan_for(&PageMessage::TouchSamples {
        samples: Some(four(0.5)),
        mean_errors: errors(),
    });
    assert_eq!(
        written(&plan),
        [
            ("touch_rotation", "90"),
            ("touch_hflip", "true"),
            ("touch_vflip", "false")
        ]
    );
    let script = plan.reply(true, "1.000000").unwrap();
    assert!(script.contains("const detail = {\"ok\":true,\"rotation\":\"90\",\"hflip\":true,\"vflip\":false,\"mean_error\":1.000000}; "));
    assert_eq!(script.matches("dispatchEvent").count(), 1);
    // A step that failed is a failure.
    assert_eq!(plan.reply(false, "1.000000").as_deref(), Some(FAILED));
}

#[test]
fn a_wizard_message_without_good_samples_is_told_of_a_failure() {
    for samples in [None, Some(Vec::new()), Some(four(1.5))] {
        let plan = plan_for(&PageMessage::TouchSamples {
            samples,
            mean_errors: errors(),
        });
        assert!(written(&plan).is_empty());
        assert_eq!(plan.reply(true, "1.000000").as_deref(), Some(FAILED));
    }
}

#[test]
fn a_result_has_the_derived_triple() {
    let derived = DerivedTouchCalibration {
        rotation: "90",
        hflip: false,
        vflip: true,
        mean_error: ONE,
    };
    let result = wizard_result(Some(&derived), "0.5").unwrap();
    assert_eq!(result.rotation, "90");
    assert!(!result.hflip);
    assert!(result.vflip);
    assert_eq!(result.mean_error, "0.5");
    assert!(wizard_result(None, "0.5").is_none());
    assert_eq!(wizard_result_script(&None), FAILED);
}
