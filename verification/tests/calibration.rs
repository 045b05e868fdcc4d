use evo_kiosk::binary64::{less_than, unit_interval_contains, INFINITY};
use evo_kiosk::calibration::{
    best_candidate, candidate_matrix, candidate_triple, compose, CANDIDATES,
};
use evo_kiosk::overlay::FsStep;
use evo_kiosk::{
    derive_and_apply_touch_calibration, derive_touch_calibration, matrix_for, KioskConfigError,
    TouchSample,
};

fn sample(target_x: f64, target_y: f64, actual_x: f64, actual_y: f64) -> TouchSample {
    TouchSample {
        target_x: target_x.to_bits(),
        target_y: target_y.to_bits(),
        actual_x: actual_x.to_bits(),
        actual_y: actual_y.to_bits(),
    }
}

/// The mean residual of every candidate, as the shell computes it.
fn mean_errors(samples: &[TouchSample]) -> [u64; 16] {
    let mut errors = [0u64; 16];
    for (i, error) in errors.iter_mut().enumerate() {
        let m = candidate_matrix(i).map(f64::from);
        let mut sq = 0.0;
        for s in samples {
            let ax = f64::from_bits(s.actual_x);
            let ay = f64::from_bits(s.actual_y);
            let dx = m[0] * ax + m[1] * ay + m[2] - f64::from_bits(s.target_x);
            let dy = m[3] * ax + m[4] * ay + m[5] - f64::from_bits(s.target_y);
            sq += dx * dx + dy * dy;
        }
        *error = (sq / samples.len() as f64).sqrt().to_bits();
    }
    errors
}

const TARGETS: [(f64, f64); 4] = [(0.1, 0.1), (0.9, 0.1), (0.9, 0.9), (0.1, 0.9)];

fn taps_through(m: [i32; 6]) -> Vec<TouchSample> {
    let m = m.map(f64::from);
    TARGETS
        .iter()
        .map(|&(tx, ty)| {
            let ax = m[0] * tx + m[1] * ty + m[2];
            let ay = m[3] * tx + m[4] * ty + m[5];
            sample(tx, ty, ax, ay)
        })
        .collect()
}

#[test]
fn wizard_picks_identity_on_perfect_alignment() {
    let samples = vec![
        sample(0.1, 0.1, 0.1, 0.1),
        sample(0.9, 0.1, 0.9, 0.1),
        sample(0.9, 0.9, 0.9, 0.9),
        sample(0.1, 0.9, 0.1, 0.9),
    ];
    let d = derive_touch_calibration(&samples, &mean_errors(&samples)).unwrap();
    assert_eq!(d.rotation, "0");
    assert!(!d.hflip);
    assert!(!d.vflip);
    assert!(f64::from_bits(d.mean_error) < 1e-9);
}

#[test]
fn wizard_picks_rot_90_when_panel_is_90_off() {
    let samples = taps_through(matrix_for("270", false, false));
    let d = derive_touch_calibration(&samples, &mean_errors(&samples)).unwrap();
    assert_eq!(d.rotation, "90");
    assert!(!d.hflip);
    assert!(!d.vflip);
    assert!(f64::from_bits(d.mean_error) < 1e-9);
}

#[test]
fn wizard_refuses_wrong_sample_count() {
    let samples = vec![sample(0.1, 0.1, 0.1, 0.1), sample(0.9, 0.9, 0.9, 0.9)];
    let err = derive_touch_calibration(&samples, &mean_errors(&samples)).unwrap_err();
    assert!(matches!(err, KioskConfigError::SampleCountMismatch(2)));
}

#[test]
fn wizard_refuses_out_of_range_coord() {
    let samples = vec![
        sample(0.1, 0.1, 0.1, 0.1),
        sample(0.9, 0.1, 1.2, 0.1),
        sample(0.9, 0.9, 0.9, 0.9),
        sample(0.1, 0.9, 0.1, 0.9),
    ];
    let err = derive_touch_calibration(&samples, &mean_errors(&samples)).unwrap_err();
    assert!(
        matches!(err, KioskConfigError::SampleOutOfRange(v) if f64::from_bits(v) > 1.0)
    );
}

#[test]
fn wizard_reports_the_first_bad_coordinate() {
    let samples = vec![
        sample(0.1, 0.1, 0.1, 0.1),
        sample(0.9, -0.5, f64::NAN, 2.0),
        sample(3.0, 0.9, 0.9, 0.9),
        sample(0.1, 0.9, 0.1, 0.9),
    ];
    let err = derive_touch_calibration(&samples, &[0; 16]).unwrap_err();
    assert!(
        matches!(err, KioskConfigError::SampleOutOfRange(v) if f64::from_bits(v) == -0.5)
    );
}

#[test]
fn matrix_for_matches_kiosk_shell_table() {
    let rows: &[(&str, bool, bool, [f64; 6])] = &[
        ("0", false, false, [1.0, 0.0, 0.0, 0.0, 1.0, 0.0]),
        ("0", false, true, [1.0, 0.0, 0.0, 0.0, -1.0, 1.0]),
        ("0", true, false, [-1.0, 0.0, 1.0, 0.0, 1.0, 0.0]),
        ("0", true, true, [-1.0, 0.0, 1.0, 0.0, -1.0, 1.0]),
        ("90", false, false, [0.0, 1.0, 0.0, -1.0, 0.0, 1.0]),
        ("90", false, true, [0.0, 1.0, 0.0, 1.0, 0.0, 0.0]),
        ("90", true, false, [0.0, -1.0, 1.0, -1.0, 0.0, 1.0]),
        ("90", true, true, [0.0, -1.0, 1.0, 1.0, 0.0, 0.0]),
        ("180", false, false, [-1.0, 0.0, 1.0, 0.0, -1.0, 1.0]),
        ("180", false, true, [-1.0, 0.0, 1.0, 0.0, 1.0, 0.0]),
        ("180", true, false, [1.0, 0.0, 0.0, 0.0, -1.0, 1.0]),
        ("180", true, true, [1.0, 0.0, 0.0, 0.0, 1.0, 0.0]),
        ("270", false, false, [0.0, -1.0, 1.0, 1.0, 0.0, 0.0]),
        ("270", false, true, [0.0, -1.0, 1.0, -1.0, 0.0, 1.0]),
        ("270", true, false, [0.0, 1.0, 0.0, 1.0, 0.0, 0.0]),
        ("270", true, true, [0.0, 1.0, 0.0, -1.0, 0.0, 1.0]),
    ];
    for (rot, hf, vf, want) in rows {
        let got = matrix_for(rot, *hf, *vf).map(f64::from);
        for i in 0..6 {
            assert!(
                (got[i] - want[i]).abs() < 1e-9,
                "matrix_for({rot}, {hf}, {vf}) mismatch at [{i}]: got={got:?} want={want:?}"
            );
        }
    }
}

#[test]
fn an_unknown_rotation_turns_nothing() {
    assert_eq!(matrix_for("45", false, false), [1, 0, 0, 0, 1, 0]);
    assert_eq!(matrix_for("", true, false), [-1, 0, 1, 0, 1, 0]);
}

#[test]
fn candidates_come_in_the_search_order() {
    let rotations = ["0", "90", "180", "270"];
    let flips = [(false, false), (true, false), (false, true), (true, true)];
    for i in 0..CANDIDATES {
        let (rotation, hflip, vflip) = candidate_triple(i);
        assert_eq!(rotation, rotations[i / 4]);
        assert_eq!((hflip, vflip), flips[i % 4]);
        assert_eq!(candidate_matrix(i), matrix_for(rotation, hflip, vflip));
    }
}

#[test]
fn composition_multiplies_matrices() {
    let a = [2, 3, 5, 7, 11, 13];
    let b = [1, -1, 4, 0, 2, -3];
    assert_eq!(compose(a, b), [2, 4, 4, 7, 15, 8]);
}

#[test]
fn every_panel_orientation_is_derived_away() {
    for i in 0..CANDIDATES {
        let samples = taps_through(candidate_matrix(i));
        let d = derive_touch_calibration(&samples, &mean_errors(&samples)).unwrap();
        assert!(f64::from_bits(d.mean_error) < 1e-9);
        let back = matrix_for(d.rotation, d.hflip, d.vflip);
        assert_eq!(compose(back, candidate_matrix(i)), [1, 0, 0, 0, 1, 0]);
        let m = back.map(f64::from);
        for s in &samples {
            let (ax, ay) = (f64::from_bits(s.actual_x), f64::from_bits(s.actual_y));
            let dx = m[0] * ax + m[1] * ay + m[2] - f64::from_bits(s.target_x);
            let dy = m[3] * ax + m[4] * ay + m[5] - f64::from_bits(s.target_y);
            assert!(dx.abs() < 1e-9 && dy.abs() < 1e-9);
        }
    }
}

#[test]
fn the_first_of_equal_residuals_wins() {
    let mut errors = [0.5f64.to_bits(); 16];
    errors[0] = f64::NAN.to_bits();
    errors[6] = 0.25f64.to_bits();
    errors[9] = 0.25f64.to_bits();
    let d = best_candidate(&errors);
    assert_eq!((d.rotation, d.hflip, d.vflip), ("90", false, true));
    assert_eq!(f64::from_bits(d.mean_error), 0.25);
    let none = best_candidate(&[INFINITY; 16]);
    assert_eq!((none.rotation, none.hflip, none.vflip), ("0", false, false));
    assert_eq!(none.mean_error, INFINITY);
}

#[test]
fn a_derived_calibration_is_persisted() {
    let samples = taps_through(matrix_for("0", true, false));
    let change = derive_and_apply_touch_calibration(&samples, &mean_errors(&samples)).unwrap();
    assert_eq!(change.applied.rotation, "0");
    assert!(change.applied.hflip);
    assert!(!change.applied.vflip);
    let written: Vec<&str> = change
        .steps
        .iter()
        .filter_map(|s| match s {
            FsStep::WriteSynced { contents, .. } => Some(contents.as_str()),
            _ => None,
        })
        .collect();
    assert_eq!(written, ["0", "true", "false"]);
    assert!(derive_and_apply_touch_calibration(&[], &[0; 16]).is_err());
}

#[test]
fn patterns_order_as_the_numbers_do() {
    let numbers = [
        f64::NEG_INFINITY,
        -1.5,
        -f64::MIN_POSITIVE,
        -0.0,
        0.0,
        f64::from_bits(1),
        f64::MIN_POSITIVE,
        0.25,
        1.0 - f64::EPSILON / 2.0,
        1.0,
        1.0 + f64::EPSILON,
        5.0,
        f64::MAX,
        f64::INFINITY,
        f64::NAN,
        -f64::NAN,
    ];
    for a in numbers {
        assert_eq!(
            unit_interval_contains(a.to_bits()),
            (0.0..=1.0).contains(&a),
            "{a}"
        );
        for b in numbers {
            assert_eq!(less_than(a.to_bits(), b.to_bits()), a < b, "{a} < {b}");
        }
    }
}

#[test]
fn half_turns_repeat_earlier_candidates() {
    for i in 8..CANDIDATES {
        let earlier = 4 * (i / 4 - 2) + (3 - i % 4);
        assert_eq!(candidate_matrix(i), candidate_matrix(earlier));
    }
    for i in 0..CANDIDATES {
        let samples = taps_through(candidate_matrix(i));
        let errors = mean_errors(&samples);
        let d = best_candidate(&errors);
        assert!(d.rotation == "0" || d.rotation == "90");
        for e in errors {
            assert!(f64::from_bits(d.mean_error) <= f64::from_bits(e));
        }
    }
}
