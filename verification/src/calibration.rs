//! The touch calibration wizard: which orientation of the touch panel brings
//! four taps closest to the four targets that they were aimed at.
//!
//! There are sixteen candidates: four rotations, each with either flip or
//! both. Their matrices hold only -1, 0 and 1, so they are integer matrices.
//! Coordinates and residuals are binary64 bit patterns (see `binary64`).

use crate::binary64::{less_than, unit_interval_contains, INFINITY};
use crate::settings::{set_touch_calibration, Change, KioskConfigError};
use crate::text::same_text;
use vstd::prelude::*;

verus! {

use crate::binary64::{
    in_unit_interval,
    is_finite,
    is_nan,
    lemma_magnitude_order,
    lt,
    magnitude,
    value,
};
use crate::overlay::step_models;
use crate::overlay::{after_steps, Files};
use crate::settings::{
    law_touch_calibration_reads_back,
    law_touch_steps_are_safe,
    leads_to,
    normalised,
    settings_in,
    touch_steps,
    DisplayModel,
};
use crate::text::lemma_trimmed_is_identity;
use vstd::arithmetic::power2::pow2;

/// How many orientations the wizard chooses from.
pub const CANDIDATES: usize = 16;

/// A tap and the target that it was aimed at, in normalised output space. Each
/// coordinate is a binary64 bit pattern.
#[derive(Debug, Clone, Copy)]
pub struct TouchSample {
    /// The x coordinate of the target.
    pub target_x: u64,
    /// The y coordinate of the target.
    pub target_y: u64,
    /// The x coordinate of the tap.
    pub actual_x: u64,
    /// The y coordinate of the tap.
    pub actual_y: u64,
}

/// What the wizard found: the winning triple, and its residual as a binary64
/// bit pattern.
#[derive(Debug, Clone, Copy)]
pub struct DerivedTouchCalibration {
    /// `"0"`, `"90"`, `"180"` or `"270"`.
    pub rotation: &'static str,
    /// The horizontal flip.
    pub hflip: bool,
    /// The vertical flip.
    pub vflip: bool,
    /// The residual that the triple was chosen by.
    pub mean_error: u64,
}

/// A 2x3 affine matrix, row by row, over the integers.
pub open spec fn entries(m: [i32; 6]) -> Seq<int> {
    m@.map_values(|x: i32| x as int)
}

/// The product of two 2x3 affine matrices, each read as a 3x3 matrix with the
/// last row (0, 0, 1).
pub open spec fn product(a: Seq<int>, b: Seq<int>) -> Seq<int> {
    seq![
        a[0] * b[0] + a[1] * b[3],
        a[0] * b[1] + a[1] * b[4],
        a[0] * b[2] + a[1] * b[5] + a[2],
        a[3] * b[0] + a[4] * b[3],
        a[3] * b[1] + a[4] * b[4],
        a[3] * b[2] + a[4] * b[5] + a[5],
    ]
}

/// Whether every entry is a 32-bit number.
pub open spec fn fits(m: Seq<int>) -> bool {
    forall|i: int| 0 <= i < m.len() ==> i32::MIN <= #[trigger] m[i] <= i32::MAX
}

fn times(x: i32, y: i32) -> (r: i128)
    ensures
        r == x * y,
        -0x4000_0000_0000_0000 <= r <= 0x4000_0000_0000_0000,
{
    assert(-0x4000_0000_0000_0000 <= x * y <= 0x4000_0000_0000_0000) by (nonlinear_arith)
        requires
            -0x8000_0000 <= x <= 0x7fff_ffff,
            -0x8000_0000 <= y <= 0x7fff_ffff,
    ;
    x as i128 * y as i128
}

/// The product of two affine matrices.
pub fn compose(a: [i32; 6], b: [i32; 6]) -> (r: [i32; 6])
    requires
        fits(product(entries(a), entries(b))),
    ensures
        entries(r) == product(entries(a), entries(b)),
{
    let ghost p = product(entries(a), entries(b));
    let m0 = times(a[0], b[0]) + times(a[1], b[3]);
    let m1 = times(a[0], b[1]) + times(a[1], b[4]);
    let m2 = times(a[0], b[2]) + times(a[1], b[5]) + a[2] as i128;
    let m3 = times(a[3], b[0]) + times(a[4], b[3]);
    let m4 = times(a[3], b[1]) + times(a[4], b[4]);
    let m5 = times(a[3], b[2]) + times(a[4], b[5]) + a[5] as i128;
    assert(m0 == p[0] && m1 == p[1] && m2 == p[2] && m3 == p[3] && m4 == p[4] && m5 == p[5]);
    let r: [i32; 6] = [m0 as i32, m1 as i32, m2 as i32, m3 as i32, m4 as i32, m5 as i32];
    assert(entries(r) =~= p);
    r
}

/// The identity.
pub open spec fn identity() -> Seq<int> {
    seq![1, 0, 0, 0, 1, 0]
}

/// The matrix of a number of quarter turns.
pub open spec fn turn_matrix(turns: nat) -> Seq<int> {
    if turns == 1 {
        seq![0, 1, 0, -1, 0, 1]
    } else if turns == 2 {
        seq![-1, 0, 1, 0, -1, 1]
    } else if turns == 3 {
        seq![0, -1, 1, 1, 0, 0]
    } else {
        identity()
    }
}

/// The matrix of the horizontal flip.
pub open spec fn hflip_matrix() -> Seq<int> {
    seq![-1, 0, 1, 0, 1, 0]
}

/// The matrix of the vertical flip.
pub open spec fn vflip_matrix() -> Seq<int> {
    seq![1, 0, 0, 0, -1, 1]
}

/// The matrix of an orientation: the rotation first, then the horizontal flip,
/// then the vertical flip.
pub open spec fn orientation_matrix(turns: nat, hflip: bool, vflip: bool) -> Seq<int> {
    let m = turn_matrix(turns);
    let m = if hflip {
        product(hflip_matrix(), m)
    } else {
        m
    };
    if vflip {
        product(vflip_matrix(), m)
    } else {
        m
    }
}

/// What the flips do to a matrix: each negates one row and shifts it back into
/// the unit square.
pub proof fn lemma_flip_products(m: Seq<int>)
    requires
        m.len() == 6,
    ensures
        product(hflip_matrix(), m) == seq![-m[0], -m[1], 1 - m[2], m[3], m[4], m[5]],
        product(vflip_matrix(), m) == seq![m[0], m[1], m[2], -m[3], -m[4], 1 - m[5]],
{
    let h = hflip_matrix();
    let v = vflip_matrix();
    lemma_row(h[0], h[1], m);
    lemma_row(h[3], h[4], m);
    lemma_row(v[0], v[1], m);
    lemma_row(v[3], v[4], m);
    assert(product(h, m) =~= seq![-m[0], -m[1], 1 - m[2], m[3], m[4], m[5]]);
    assert(product(v, m) =~= seq![m[0], m[1], m[2], -m[3], -m[4], 1 - m[5]]);
}

proof fn lemma_row(x: int, y: int, m: Seq<int>)
    ensures
        x == 0 && y == 1 ==> forall|i: int, j: int|
            #![trigger x * m[i], y * m[j]]
            x * m[i] + y * m[j] == m[j],
        x == 1 && y == 0 ==> forall|i: int, j: int|
            #![trigger x * m[i], y * m[j]]
            x * m[i] + y * m[j] == m[i],
        x == 0 && y == -1 ==> forall|i: int, j: int|
            #![trigger x * m[i], y * m[j]]
            x * m[i] + y * m[j] == -m[j],
        x == -1 && y == 0 ==> forall|i: int, j: int|
            #![trigger x * m[i], y * m[j]]
            x * m[i] + y * m[j] == -m[i],
{
    assert forall|i: int, j: int|
        #![trigger x * m[i], y * m[j]]
        (x == 0 ==> x * m[i] == 0) && (x == 1 ==> x * m[i] == m[i]) && (x == -1 ==> x * m[i]
            == -m[i]) && (y == 0 ==> y * m[j] == 0) && (y == 1 ==> y * m[j] == m[j]) && (y == -1
            ==> y * m[j] == -m[j]) by {
        let p = m[i];
        let q = m[j];
        assert((x == 0 ==> x * p == 0) && (x == 1 ==> x * p == p) && (x == -1 ==> x * p == -p))
            by (nonlinear_arith);
        assert((y == 0 ==> y * q == 0) && (y == 1 ==> y * q == q) && (y == -1 ==> y * q == -q))
            by (nonlinear_arith);
    }
}

/// How many quarter turns a rotation is. A text that is no rotation is none.
pub open spec fn quarter_turns(rotation: Seq<char>) -> nat {
    if rotation == "90"@ {
        1
    } else if rotation == "180"@ {
        2
    } else if rotation == "270"@ {
        3
    } else {
        0
    }
}

/// The rotation of a number of quarter turns.
pub open spec fn turn_name(turns: nat) -> Seq<char> {
    if turns == 1 {
        "90"@
    } else if turns == 2 {
        "180"@
    } else if turns == 3 {
        "270"@
    } else {
        "0"@
    }
}

/// The calibration matrix of a triple.
pub fn matrix_for(rotation: &str, hflip: bool, vflip: bool) -> (r: [i32; 6])
    ensures
        entries(r) == orientation_matrix(quarter_turns(rotation@), hflip, vflip),
{
    let mut m: [i32; 6] = if same_text(rotation, "90") {
        [0, 1, 0, -1, 0, 1]
    } else if same_text(rotation, "180") {
        [-1, 0, 1, 0, -1, 1]
    } else if same_text(rotation, "270") {
        [0, -1, 1, 1, 0, 0]
    } else {
        [1, 0, 0, 0, 1, 0]
    };
    let ghost turns = quarter_turns(rotation@);
    assert(entries(m) =~= turn_matrix(turns));
    if hflip {
        let flip: [i32; 6] = [-1, 0, 1, 0, 1, 0];
        proof {
            assert(entries(flip) =~= hflip_matrix());
            lemma_flip_products(entries(m));
        }
        m = compose(flip, m);
    }
    if vflip {
        let flip: [i32; 6] = [1, 0, 0, 0, -1, 1];
        proof {
            assert(entries(flip) =~= vflip_matrix());
            lemma_flip_products(entries(m));
        }
        m = compose(flip, m);
    }
    m
}

/// The quarter turns of a candidate. Candidates are ordered by rotation, then
/// no flip, horizontal, vertical, both.
pub open spec fn candidate_turns(i: int) -> nat {
    (i / 4) as nat
}

/// The horizontal flip of a candidate.
pub open spec fn candidate_hflip(i: int) -> bool {
    i % 2 == 1
}

/// The vertical flip of a candidate.
pub open spec fn candidate_vflip(i: int) -> bool {
    (i / 2) % 2 == 1
}

/// The matrix of a candidate.
pub open spec fn matrix_of_candidate(k: int) -> Seq<int> {
    orientation_matrix(candidate_turns(k), candidate_hflip(k), candidate_vflip(k))
}

/// A candidate triple, by its place in the search order.
pub fn candidate_triple(i: usize) -> (r: (&'static str, bool, bool))
    requires
        i < CANDIDATES,
    ensures
        r.0@ == turn_name(candidate_turns(i as int)),
        r.1 == candidate_hflip(i as int),
        r.2 == candidate_vflip(i as int),
{
    let rotation = if i < 4 {
        "0"
    } else if i < 8 {
        "90"
    } else if i < 12 {
        "180"
    } else {
        "270"
    };
    (rotation, i % 2 == 1, (i / 2) % 2 == 1)
}

/// The matrix of a candidate: what the residual of each tap is taken against.
pub fn candidate_matrix(i: usize) -> (r: [i32; 6])
    requires
        i < CANDIDATES,
    ensures
        entries(r) == matrix_of_candidate(i as int),
{
    let (rotation, hflip, vflip) = candidate_triple(i);
    proof {
        lemma_turn_names(candidate_turns(i as int));
    }
    matrix_for(rotation, hflip, vflip)
}

proof fn lemma_turn_names(turns: nat)
    requires
        turns < 4,
    ensures
        quarter_turns(turn_name(turns)) == turns,
        normalised(turn_name(turns)) == Some(turn_name(turns)),
{
    reveal_strlit("0");
    reveal_strlit("90");
    reveal_strlit("180");
    reveal_strlit("270");
    reveal_strlit("normal");
    lemma_trimmed_is_identity(turn_name(turns));
    assert("normal"@.len() == 6);
    assert("0"@.len() != "90"@.len() && "180"@.len() != "90"@.len());
    assert("180"@[0] != "270"@[0]);
}

/// The coordinates of a sample, in the order in which they are checked.
pub open spec fn coordinates(s: TouchSample) -> Seq<u64> {
    seq![s.target_x, s.target_y, s.actual_x, s.actual_y]
}

/// The coordinates of all samples, in the order in which they are checked.
pub open spec fn all_coordinates(samples: Seq<TouchSample>) -> Seq<u64>
    decreases samples.len(),
{
    if samples.len() == 0 {
        Seq::empty()
    } else {
        all_coordinates(samples.drop_last()) + coordinates(samples.last())
    }
}

/// Whether coordinate `k` is the first that is not in the unit interval.
pub open spec fn first_out_of_range(coords: Seq<u64>, k: int) -> bool {
    &&& 0 <= k < coords.len()
    &&& !in_unit_interval(coords[k])
    &&& forall|j: int| 0 <= j < k ==> in_unit_interval(#[trigger] coords[j])
}

/// Whether every coordinate is in the unit interval.
pub open spec fn all_in_range(coords: Seq<u64>) -> bool {
    forall|j: int| 0 <= j < coords.len() ==> in_unit_interval(#[trigger] coords[j])
}

/// Whether there are four samples with all their coordinates in the unit
/// interval.
pub open spec fn samples_accepted(samples: Seq<TouchSample>) -> bool {
    samples.len() == 4 && all_in_range(all_coordinates(samples))
}

/// Whether `e` is the reason why `samples` are refused: their number, or else
/// the first coordinate that is not in the unit interval.
pub open spec fn samples_refused(samples: Seq<TouchSample>, e: KioskConfigError) -> bool {
    match e {
        KioskConfigError::SampleCountMismatch(n) => samples.len() != 4 && n == samples.len(),
        KioskConfigError::SampleOutOfRange(bits) => samples.len() == 4 && exists|k: int| #[trigger]
            first_out_of_range(all_coordinates(samples), k) && all_coordinates(samples)[k] == bits,
        KioskConfigError::InvalidRotation(_) => false,
    }
}

/// Checks that there are four samples and that all their coordinates are in
/// the unit interval; reports the first that is not.
pub fn check_touch_samples(samples: &[TouchSample]) -> (r: Result<(), KioskConfigError>)
    ensures
        match r {
            Ok(()) => samples_accepted(samples@),
            Err(e) => samples_refused(samples@, e),
        },
{
    if samples.len() != 4 {
        return Err(KioskConfigError::SampleCountMismatch(samples.len()));
    }
    let ghost coords = all_coordinates(samples@);
    for i in 0..samples.len()
        invariant
            samples@.len() == 4,
            coords == all_coordinates(samples@),
            all_in_range(all_coordinates(samples@.take(i as int))),
    {
        let s = samples[i];
        let ghost done = all_coordinates(samples@.take(i as int));
        let ghost next = all_coordinates(samples@.take(i + 1));
        proof {
            assert(samples@.take(i + 1).drop_last() == samples@.take(i as int));
            assert(next == done + coordinates(s));
            lemma_coordinates_prefix(samples@, i + 1);
        }
        let four: [u64; 4] = [s.target_x, s.target_y, s.actual_x, s.actual_y];
        assert(four@ =~= coordinates(s));
        for j in 0..4usize
            invariant
                samples@.len() == 4,
                coords == all_coordinates(samples@),
                all_in_range(done),
                four@ == coordinates(s),
                next == done + coordinates(s),
                next.len() <= coords.len(),
                coords.take(next.len() as int) == next,
                forall|k: int| 0 <= k < j ==> in_unit_interval(#[trigger] four@[k]),
        {
            let v = four[j];
            if !unit_interval_contains(v) {
                proof {
                    let k = done.len() + j;
                    assert(next[k] == v);
                    assert(coords.take(next.len() as int)[k] == coords[k]);
                    assert forall|q: int| 0 <= q < k implies in_unit_interval(
                        #[trigger] coords[q],
                    ) by {
                        assert(coords.take(next.len() as int)[q] == coords[q]);
                        if q < done.len() {
                            assert(next[q] == done[q]);
                        } else {
                            assert(next[q] == four@[q - done.len()]);
                        }
                    }
                    assert(first_out_of_range(coords, k));
                }
                return Err(KioskConfigError::SampleOutOfRange(v));
            }
        }
        assert forall|q: int| 0 <= q < next.len() implies in_unit_interval(#[trigger] next[q]) by {
            if q < done.len() {
                assert(next[q] == done[q]);
            } else {
                assert(next[q] == four@[q - done.len()]);
            }
        }
    }
    assert(samples@.take(4) == samples@);
    Ok(())
}

proof fn lemma_coordinates_prefix(samples: Seq<TouchSample>, n: int)
    requires
        0 <= n <= samples.len(),
    ensures
        all_coordinates(samples.take(n)).len() <= all_coordinates(samples).len(),
        all_coordinates(samples).take(all_coordinates(samples.take(n)).len() as int)
            == all_coordinates(samples.take(n)),
    decreases samples.len(),
{
    let part = all_coordinates(samples.take(n));
    if n == samples.len() {
        assert(samples.take(n) == samples);
        assert(part.take(part.len() as int) == part);
    } else {
        lemma_coordinates_prefix(samples.drop_last(), n);
        assert(samples.drop_last().take(n) == samples.take(n));
        let front = all_coordinates(samples.drop_last());
        assert((front + coordinates(samples.last())).take(part.len() as int) == front.take(
            part.len() as int,
        ));
    }
}

/// Whether candidate `k` has the least mean residual, and is the first that
/// has it. Only residuals below infinity count.
pub open spec fn is_winner(mean_errors: Seq<u64>, k: int) -> bool {
    &&& 0 <= k < mean_errors.len()
    &&& lt(mean_errors[k], INFINITY)
    &&& forall|j: int|
        0 <= j < mean_errors.len() ==> is_nan(#[trigger] mean_errors[j]) || value(mean_errors[k])
            <= value(mean_errors[j])
    &&& forall|j: int|
        0 <= j < k ==> is_nan(#[trigger] mean_errors[j]) || value(mean_errors[k]) < value(
            mean_errors[j],
        )
}

/// Whether a derived calibration is that of candidate `k`.
pub open spec fn is_candidate(d: DerivedTouchCalibration, mean_errors: Seq<u64>, k: int) -> bool {
    &&& d.rotation@ == turn_name(candidate_turns(k))
    &&& d.hflip == candidate_hflip(k)
    &&& d.vflip == candidate_vflip(k)
    &&& d.mean_error == mean_errors[k]
}

/// Whether `d` is the winning candidate or, where no residual is below
/// infinity, the unrotated, unflipped one.
pub open spec fn is_best(d: DerivedTouchCalibration, mean_errors: Seq<u64>) -> bool {
    ||| exists|k: int| #[trigger] is_winner(mean_errors, k) && is_candidate(d, mean_errors, k)
    ||| {
        &&& forall|k: int|
            0 <= k < mean_errors.len() ==> !lt(#[trigger] mean_errors[k], INFINITY)
        &&& d.rotation@ == "0"@ && !d.hflip && !d.vflip && d.mean_error == INFINITY
    }
}

/// Picks the candidate with the least mean residual; the first of several.
/// Where no residual is below infinity, it is the unrotated, unflipped one.
pub fn best_candidate(mean_errors: &[u64; 16]) -> (r: DerivedTouchCalibration)
    ensures
        is_best(r, mean_errors@),
{
    let mut best = DerivedTouchCalibration {
        rotation: "0",
        hflip: false,
        vflip: false,
        mean_error: INFINITY,
    };
    let ghost mut winner: int = -1;
    for i in 0..CANDIDATES
        invariant
            mean_errors@.len() == CANDIDATES,
            !is_nan(best.mean_error),
            winner == -1 || is_winner(mean_errors@.take(i as int), winner) && is_candidate(
                best,
                mean_errors@,
                winner,
            ),
            winner == -1 ==> best.mean_error == INFINITY && best.rotation@ == "0"@ && !best.hflip
                && !best.vflip,
            winner == -1 ==> forall|k: int|
                0 <= k < i ==> !lt(#[trigger] mean_errors@[k], INFINITY),
    {
        let mean = mean_errors[i];
        let ghost before = mean_errors@.take(i as int);
        let ghost upto = mean_errors@.take(i + 1);
        proof {
            assert(forall|j: int| 0 <= j < i ==> #[trigger] upto[j] == before[j]);
            assert(upto[i as int] == mean);
        }
        if less_than(mean, best.mean_error) {
            let (rotation, hflip, vflip) = candidate_triple(i);
            proof {
                assert forall|j: int| 0 <= j < i implies is_nan(#[trigger] upto[j]) || value(mean)
                    < value(upto[j]) by {
                    if winner == -1 {
                        assert(!lt(mean_errors@[j], INFINITY));
                    } else {
                        assert(upto[j] == before[j]);
                    }
                }
                winner = i as int;
                assert(is_winner(upto, winner));
            }
            best = DerivedTouchCalibration { rotation, hflip, vflip, mean_error: mean };
        }
        proof {
            if winner != i && winner != -1 {
                assert(is_winner(upto, winner)) by {
                    assert(upto[winner] == before[winner]);
                    assert forall|j: int| 0 <= j < winner implies is_nan(#[trigger] upto[j])
                        || value(upto[winner]) < value(upto[j]) by {
                        assert(upto[j] == before[j]);
                    }
                    assert forall|j: int| 0 <= j < upto.len() implies is_nan(#[trigger] upto[j])
                        || value(upto[winner]) <= value(upto[j]) by {
                        if j < i {
                            assert(upto[j] == before[j]);
                        }
                    }
                }
            }
        }
    }
    assert(mean_errors@.take(CANDIDATES as int) == mean_errors@);
    best
}

/// Derives the orientation of the touch panel from four samples and the mean
/// residual that each candidate's matrix leaves on them, in search order.
pub fn derive_touch_calibration(samples: &[TouchSample], mean_errors: &[u64; 16]) -> (r: Result<
    DerivedTouchCalibration,
    KioskConfigError,
>)
    ensures
        match r {
            Ok(d) => samples_accepted(samples@) && is_best(d, mean_errors@),
            Err(e) => samples_refused(samples@, e),
        },
{
    match check_touch_samples(samples) {
        Ok(()) => Ok(best_candidate(mean_errors)),
        Err(e) => Err(e),
    }
}

/// What comes of deriving and persisting a touch calibration.
pub open spec fn wizard_outcome(
    samples: Seq<TouchSample>,
    mean_errors: Seq<u64>,
    r: Result<Change<DerivedTouchCalibration>, KioskConfigError>,
) -> bool {
    match r {
        Ok(change) => {
            &&& samples_accepted(samples)
            &&& is_best(change.applied, mean_errors)
            &&& step_models(change.steps@) == touch_steps(
                change.applied.rotation@,
                change.applied.hflip,
                change.applied.vflip,
            )
        },
        Err(e) => samples_refused(samples, e),
    }
}

/// Derives the orientation of the touch panel and gives the steps that persist
/// it.
pub fn derive_and_apply_touch_calibration(samples: &[TouchSample], mean_errors: &[u64; 16]) -> (r:
    Result<Change<DerivedTouchCalibration>, KioskConfigError>)
    ensures
        wizard_outcome(samples@, mean_errors@, r),
{
    let d = match derive_touch_calibration(samples, mean_errors) {
        Ok(d) => d,
        Err(e) => {
            return Err(e);
        },
    };
    proof {
        lemma_best_rotation_is_canonical(d, mean_errors@);
    }
    match set_touch_calibration(d.rotation, d.hflip, d.vflip) {
        Ok(change) => Ok(Change { applied: d, steps: change.steps }),
        Err(e) => Err(e),
    }
}

proof fn lemma_best_rotation_is_canonical(d: DerivedTouchCalibration, mean_errors: Seq<u64>)
    requires
        mean_errors.len() == CANDIDATES,
        is_best(d, mean_errors),
    ensures
        normalised(d.rotation@) == Some(d.rotation@),
{
    if exists|k: int| #[trigger] is_winner(mean_errors, k) && is_candidate(d, mean_errors, k) {
        let k = choose|k: int| #[trigger]
            is_winner(mean_errors, k) && is_candidate(d, mean_errors, k);
        lemma_turn_names(candidate_turns(k));
    } else {
        lemma_turn_names(0);
    }
}

/// At most one candidate wins.
pub proof fn law_winner_is_unique(mean_errors: Seq<u64>, j: int, k: int)
    requires
        is_winner(mean_errors, j),
        is_winner(mean_errors, k),
    ensures
        j == k,
{
}

/// Half a turn is both flips at once, so the rotations by 180 and by 270 repeat
/// the matrices of those by 0 and by 90 with both flips inverted.
pub proof fn law_half_turn_is_both_flips(hflip: bool, vflip: bool)
    ensures
        orientation_matrix(2, hflip, vflip) == orientation_matrix(0, !hflip, !vflip),
        orientation_matrix(3, hflip, vflip) == orientation_matrix(1, !hflip, !vflip),
{
    lemma_orientations(0, !hflip, !vflip);
    lemma_orientations(1, !hflip, !vflip);
    lemma_orientations(2, hflip, vflip);
    lemma_orientations(3, hflip, vflip);
}

proof fn lemma_orientations(turns: nat, hflip: bool, vflip: bool)
    ensures
        orientation_matrix(turns, hflip, vflip) == ({
            let m = turn_matrix(turns);
            seq![
                if hflip { -m[0] } else { m[0] },
                if hflip { -m[1] } else { m[1] },
                if hflip { 1 - m[2] } else { m[2] },
                if vflip { -m[3] } else { m[3] },
                if vflip { -m[4] } else { m[4] },
                if vflip { 1 - m[5] } else { m[5] },
            ]
        }),
{
    let m = turn_matrix(turns);
    lemma_flip_products(m);
    lemma_flip_products(product(hflip_matrix(), m));
}

/// The earlier candidate whose matrix a candidate by 180 or by 270 repeats.
pub open spec fn repeated_candidate(k: int) -> int {
    4 * (k / 4 - 2) + (3 - k % 4)
}

/// Every candidate of the second half has the matrix of one of the first half.
pub proof fn law_second_half_repeats_the_first(k: int)
    requires
        8 <= k < CANDIDATES,
    ensures
        0 <= repeated_candidate(k) < 8,
        matrix_of_candidate(k) == matrix_of_candidate(repeated_candidate(k)),
{
    law_half_turn_is_both_flips(candidate_hflip(k), candidate_vflip(k));
}

/// Whether candidates with the same matrix have the same mean residual.
pub open spec fn repeats_agree(mean_errors: Seq<u64>) -> bool {
    forall|k: int|
        8 <= k < CANDIDATES ==> is_nan(#[trigger] mean_errors[k]) == is_nan(
            mean_errors[repeated_candidate(k)],
        ) && value(mean_errors[k]) == value(mean_errors[repeated_candidate(k)])
}

/// Where candidates with the same matrix have the same residual, one of the
/// first half wins.
pub proof fn law_first_half_wins(mean_errors: Seq<u64>, k: int)
    requires
        mean_errors.len() == CANDIDATES,
        repeats_agree(mean_errors),
        is_winner(mean_errors, k),
    ensures
        k < 8,
{
    if k >= 8 {
        law_second_half_repeats_the_first(k);
        let j = repeated_candidate(k);
        assert(is_nan(mean_errors[j]) == is_nan(mean_errors[k]));
    }
}

/// Where candidates with the same matrix have the same residual, the derived
/// rotation is 0 or 90.
pub proof fn law_derived_rotation_is_0_or_90(d: DerivedTouchCalibration, mean_errors: Seq<u64>)
    requires
        mean_errors.len() == CANDIDATES,
        repeats_agree(mean_errors),
        is_best(d, mean_errors),
    ensures
        d.rotation@ == "0"@ || d.rotation@ == "90"@,
{
    if exists|k: int| #[trigger] is_winner(mean_errors, k) && is_candidate(d, mean_errors, k) {
        let k = choose|k: int| #[trigger]
            is_winner(mean_errors, k) && is_candidate(d, mean_errors, k);
        law_first_half_wins(mean_errors, k);
    }
}

/// No candidate fits better than the derived one: its residual is at most that
/// of every candidate that has one.
pub proof fn law_derived_residual_is_least(
    d: DerivedTouchCalibration,
    mean_errors: Seq<u64>,
    k: int,
)
    requires
        is_best(d, mean_errors),
        0 <= k < mean_errors.len(),
        !is_nan(mean_errors[k]),
    ensures
        !is_nan(d.mean_error),
        value(d.mean_error) <= value(mean_errors[k]),
{
    if !(exists|j: int| #[trigger] is_winner(mean_errors, j) && is_candidate(d, mean_errors, j)) {
        assert(!lt(mean_errors[k], INFINITY));
    }
}

/// How far along x a matrix leaves a tap from its target, in units of the
/// least positive number.
pub open spec fn error_x(m: Seq<int>, s: TouchSample) -> int {
    m[0] * value(s.actual_x) + m[1] * value(s.actual_y) + m[2] * pow2(1074) - value(s.target_x)
}

/// How far along y a matrix leaves a tap from its target, in units of the
/// least positive number.
pub open spec fn error_y(m: Seq<int>, s: TouchSample) -> int {
    m[3] * value(s.actual_x) + m[4] * value(s.actual_y) + m[5] * pow2(1074) - value(s.target_y)
}

/// The squared distance at which a matrix leaves a tap from its target.
pub open spec fn squared_error(m: Seq<int>, s: TouchSample) -> int {
    error_x(m, s) * error_x(m, s) + error_y(m, s) * error_y(m, s)
}

/// The sum of the squared distances at which a matrix leaves the taps from
/// their targets.
pub open spec fn squared_errors(m: Seq<int>, samples: Seq<TouchSample>) -> int
    decreases samples.len(),
{
    if samples.len() == 0 {
        0
    } else {
        squared_errors(m, samples.drop_last()) + squared_error(m, samples.last())
    }
}

/// Whether a residual is within `tolerance` of the root of the mean of four
/// squared distances that sum up to `sum`.
pub open spec fn is_accurate(mean_error: u64, sum: int, tolerance: nat) -> bool {
    let v = value(mean_error);
    &&& is_finite(mean_error)
    &&& v >= 0
    &&& sum <= 4 * ((v + tolerance) * (v + tolerance))
    &&& v > tolerance ==> 4 * ((v - tolerance) * (v - tolerance)) <= sum
}

/// The matrix of a derived calibration.
pub open spec fn matrix_of(d: DerivedTouchCalibration) -> Seq<int> {
    orientation_matrix(quarter_turns(d.rotation@), d.hflip, d.vflip)
}

proof fn lemma_squared_errors(m: Seq<int>, samples: Seq<TouchSample>)
    ensures
        squared_errors(m, samples) >= 0,
        forall|i: int|
            0 <= i < samples.len() ==> squared_error(m, #[trigger] samples[i]) <= squared_errors(
                m,
                samples,
            ),
        (forall|i: int|
            0 <= i < samples.len() ==> error_x(m, #[trigger] samples[i]) == 0 && error_y(
                m,
                samples[i],
            ) == 0) ==> squared_errors(m, samples) == 0,
    decreases samples.len(),
{
    if samples.len() > 0 {
        let front = samples.drop_last();
        lemma_squared_errors(m, front);
        let x = error_x(m, samples.last());
        let y = error_y(m, samples.last());
        assert(x * x >= 0 && y * y >= 0) by (nonlinear_arith);
        assert forall|i: int| 0 <= i < samples.len() implies squared_error(
            m,
            #[trigger] samples[i],
        ) <= squared_errors(m, samples) by {
            if i < samples.len() - 1 {
                assert(front[i] == samples[i]);
            }
        }
        if forall|i: int|
            0 <= i < samples.len() ==> error_x(m, #[trigger] samples[i]) == 0 && error_y(
                m,
                samples[i],
            ) == 0 {
            assert forall|i: int| 0 <= i < front.len() implies error_x(m, #[trigger] front[i]) == 0
                && error_y(m, front[i]) == 0 by {
                assert(front[i] == samples[i]);
            }
            assert(x == 0 && y == 0);
            assert(squared_error(m, samples.last()) == 0);
        }
    }
}

proof fn lemma_root_bound(x: int, y: int, bound: int)
    requires
        x * x + y * y <= bound * bound,
        bound >= 0,
    ensures
        -bound <= x <= bound,
        -bound <= y <= bound,
{
    assert(-bound <= x <= bound && -bound <= y <= bound) by (nonlinear_arith)
        requires
            x * x + y * y <= bound * bound,
            bound >= 0,
    ;
}

/// An exact fit is found again: where a candidate takes every tap exactly to
/// its target, and the residuals are within a tolerance of what they stand for,
/// the derived residual is at most that tolerance, and the derived matrix takes
/// every tap to its target within four times the tolerance along each axis.
/// Where candidates with the same matrix have the same residual, the derived
/// rotation is 0 or 90.
pub proof fn law_exact_fit_is_found_again(
    samples: Seq<TouchSample>,
    mean_errors: Seq<u64>,
    tolerance: nat,
    k: int,
    d: DerivedTouchCalibration,
)
    requires
        samples.len() == 4,
        mean_errors.len() == CANDIDATES,
        0 <= k < CANDIDATES,
        forall|i: int|
            0 <= i < samples.len() ==> error_x(matrix_of_candidate(k), #[trigger] samples[i]) == 0
                && error_y(matrix_of_candidate(k), samples[i]) == 0,
        forall|j: int|
            0 <= j < CANDIDATES ==> is_accurate(
                #[trigger] mean_errors[j],
                squared_errors(matrix_of_candidate(j), samples),
                tolerance,
            ),
        is_best(d, mean_errors),
    ensures
        0 <= value(d.mean_error) <= tolerance,
        forall|i: int|
            0 <= i < samples.len() ==> {
                &&& -4 * tolerance <= error_x(matrix_of(d), #[trigger] samples[i]) <= 4 * tolerance
                &&& -4 * tolerance <= error_y(matrix_of(d), samples[i]) <= 4 * tolerance
            },
        repeats_agree(mean_errors) ==> d.rotation@ == "0"@ || d.rotation@ == "90"@,
{
    let t = tolerance as int;
    let v = value(mean_errors[k]);
    lemma_squared_errors(matrix_of_candidate(k), samples);
    assert(v <= t) by {
        if v > t {
            assert((v - t) * (v - t) > 0) by (nonlinear_arith)
                requires
                    v > t,
            ;
        }
    }
    lemma_magnitude_order(magnitude(mean_errors[k]), magnitude(INFINITY));
    lemma_magnitude_order(0, magnitude(INFINITY));
    assert(lt(mean_errors[k], INFINITY));
    let j = choose|j: int| #[trigger]
        is_winner(mean_errors, j) && is_candidate(d, mean_errors, j);
    assert(is_winner(mean_errors, j) && is_candidate(d, mean_errors, j));
    lemma_turn_names(candidate_turns(j));
    assert(matrix_of(d) == matrix_of_candidate(j));
    let w = value(mean_errors[j]);
    let q = squared_errors(matrix_of_candidate(j), samples);
    assert(w <= v);
    assert(is_accurate(mean_errors[j], q, tolerance));
    assert(4 * ((w + t) * (w + t)) <= (4 * t) * (4 * t)) by (nonlinear_arith)
        requires
            0 <= w <= t,
    ;
    lemma_squared_errors(matrix_of_candidate(j), samples);
    assert forall|i: int| 0 <= i < samples.len() implies {
        &&& -4 * tolerance <= error_x(matrix_of(d), #[trigger] samples[i]) <= 4 * tolerance
        &&& -4 * tolerance <= error_y(matrix_of(d), samples[i]) <= 4 * tolerance
    } by {
        assert(squared_error(matrix_of_candidate(j), samples[i]) <= q);
        lemma_root_bound(
            error_x(matrix_of(d), samples[i]),
            error_y(matrix_of(d), samples[i]),
            4 * t,
        );
    }
    if repeats_agree(mean_errors) {
        law_derived_rotation_is_0_or_90(d, mean_errors);
    }
}

/// The orientation that undoes another: a single flip undoes itself, and a
/// rotation is undone by the turns that are left of a full turn.
pub open spec fn undoing_turns(turns: nat, hflip: bool, vflip: bool) -> nat {
    if hflip != vflip {
        turns
    } else {
        ((4 - turns) % 4) as nat
    }
}

/// Whatever candidate orientation a panel has, some candidate brings its taps
/// back onto the targets, from either side.
pub proof fn law_every_orientation_is_undone(turns: nat, hflip: bool, vflip: bool)
    requires
        turns < 4,
    ensures
        undoing_turns(turns, hflip, vflip) < 4,
        product(
            orientation_matrix(undoing_turns(turns, hflip, vflip), hflip, vflip),
            orientation_matrix(turns, hflip, vflip),
        ) == identity(),
        product(
            orientation_matrix(turns, hflip, vflip),
            orientation_matrix(undoing_turns(turns, hflip, vflip), hflip, vflip),
        ) == identity(),
{
    let back = undoing_turns(turns, hflip, vflip);
    let a = orientation_matrix(turns, hflip, vflip);
    let b = orientation_matrix(back, hflip, vflip);
    lemma_flip_products(turn_matrix(turns));
    lemma_flip_products(turn_matrix(back));
    lemma_flip_products(product(hflip_matrix(), turn_matrix(turns)));
    lemma_flip_products(product(hflip_matrix(), turn_matrix(back)));
    assert(a.len() == 6 && b.len() == 6);
    lemma_row(a[0], a[1], b);
    lemma_row(a[3], a[4], b);
    lemma_row(b[0], b[1], a);
    lemma_row(b[3], b[4], a);
    assert(product(a, b) =~= identity());
    assert(product(b, a) =~= identity());
}

/// Where a matrix takes a point, along x.
pub open spec fn image_x(m: Seq<int>, x: int, y: int) -> int {
    m[0] * x + m[1] * y + m[2]
}

/// Where a matrix takes a point, along y.
pub open spec fn image_y(m: Seq<int>, x: int, y: int) -> int {
    m[3] * x + m[4] * y + m[5]
}

/// A product takes every point where its second matrix and then its first take
/// it.
pub proof fn law_product_is_one_after_the_other(a: Seq<int>, b: Seq<int>, x: int, y: int)
    ensures
        image_x(product(a, b), x, y) == image_x(a, image_x(b, x, y), image_y(b, x, y)),
        image_y(product(a, b), x, y) == image_y(a, image_x(b, x, y), image_y(b, x, y)),
{
    lemma_row_composes(a[0], a[1], a[2], b, x, y);
    lemma_row_composes(a[3], a[4], a[5], b, x, y);
}

proof fn lemma_row_composes(p: int, q: int, r: int, b: Seq<int>, x: int, y: int)
    ensures
        (p * b[0] + q * b[3]) * x + (p * b[1] + q * b[4]) * y + (p * b[2] + q * b[5] + r) == p * (
        b[0] * x + b[1] * y + b[2]) + q * (b[3] * x + b[4] * y + b[5]) + r,
{
    let (b0, b1, b2) = (b[0], b[1], b[2]);
    let (b3, b4, b5) = (b[3], b[4], b[5]);
    assert((p * b0 + q * b3) * x == p * (b0 * x) + q * (b3 * x)) by (nonlinear_arith);
    assert((p * b1 + q * b4) * y == p * (b1 * y) + q * (b4 * y)) by (nonlinear_arith);
    assert(p * (b0 * x + b1 * y + b2) == p * (b0 * x) + p * (b1 * y) + p * b2)
        by (nonlinear_arith);
    assert(q * (b3 * x + b4 * y + b5) == q * (b3 * x) + q * (b4 * y) + q * b5)
        by (nonlinear_arith);
}

/// What an orientation does to a point of the unit square: a quarter turn takes
/// (x, y) to (y, 1 - x), half a turn to (1 - x, 1 - y), three quarters to
/// (1 - y, x); a flip then mirrors its axis. A text that is no rotation turns
/// nothing.
pub proof fn law_orientations_turn_then_flip(
    rotation: Seq<char>,
    hflip: bool,
    vflip: bool,
    x: int,
    y: int,
)
    ensures
        ({
            let m = orientation_matrix(quarter_turns(rotation), hflip, vflip);
            let (px, py) = if rotation == "90"@ {
                (y, 1 - x)
            } else if rotation == "180"@ {
                (1 - x, 1 - y)
            } else if rotation == "270"@ {
                (1 - y, x)
            } else {
                (x, y)
            };
            &&& image_x(m, x, y) == if hflip {
                1 - px
            } else {
                px
            }
            &&& image_y(m, x, y) == if vflip {
                1 - py
            } else {
                py
            }
        }),
{
    reveal_strlit("90");
    reveal_strlit("180");
    reveal_strlit("270");
    assert("90"@.len() == 2 && "180"@.len() == 3 && "270"@.len() == 3);
    assert("180"@[0] != "270"@[0]);
    lemma_orientations(quarter_turns(rotation), hflip, vflip);
    assert(-1 * x == -x && 1 * x == x && 0 * x == 0) by (nonlinear_arith);
    assert(-1 * y == -y && 1 * y == y && 0 * y == 0) by (nonlinear_arith);
}

/// Samples are accepted exactly where there are four and every coordinate of
/// each is in the unit interval.
pub proof fn law_samples_are_four_in_the_unit_square(samples: Seq<TouchSample>)
    ensures
        samples_accepted(samples) <==> samples.len() == 4 && forall|i: int|
            0 <= i < samples.len() ==> {
                &&& in_unit_interval((#[trigger] samples[i]).target_x)
                &&& in_unit_interval(samples[i].target_y)
                &&& in_unit_interval(samples[i].actual_x)
                &&& in_unit_interval(samples[i].actual_y)
            },
{
    lemma_coordinates_by_sample(samples);
    let all = all_coordinates(samples);
    if all_in_range(all) {
        assert forall|i: int| 0 <= i < samples.len() implies {
            &&& in_unit_interval((#[trigger] samples[i]).target_x)
            &&& in_unit_interval(samples[i].target_y)
            &&& in_unit_interval(samples[i].actual_x)
            &&& in_unit_interval(samples[i].actual_y)
        } by {
            assert(in_unit_interval(all[4 * i]));
            assert(in_unit_interval(all[4 * i + 1]));
            assert(in_unit_interval(all[4 * i + 2]));
            assert(in_unit_interval(all[4 * i + 3]));
        }
    }
    if forall|i: int|
        0 <= i < samples.len() ==> {
            &&& in_unit_interval((#[trigger] samples[i]).target_x)
            &&& in_unit_interval(samples[i].target_y)
            &&& in_unit_interval(samples[i].actual_x)
            &&& in_unit_interval(samples[i].actual_y)
        } {
        assert forall|j: int| 0 <= j < all.len() implies in_unit_interval(#[trigger] all[j]) by {
            let s = samples[j / 4];
            assert(j == 4 * (j / 4) + j % 4);
        }
    }
}

proof fn lemma_coordinates_by_sample(samples: Seq<TouchSample>)
    ensures
        all_coordinates(samples).len() == 4 * samples.len(),
        forall|i: int|
            0 <= i < samples.len() ==> {
                &&& all_coordinates(samples)[4 * i] == (#[trigger] samples[i]).target_x
                &&& all_coordinates(samples)[4 * i + 1] == samples[i].target_y
                &&& all_coordinates(samples)[4 * i + 2] == samples[i].actual_x
                &&& all_coordinates(samples)[4 * i + 3] == samples[i].actual_y
            },
    decreases samples.len(),
{
    if samples.len() > 0 {
        let front = samples.drop_last();
        lemma_coordinates_by_sample(front);
        let n = front.len();
        let all = all_coordinates(samples);
        let before = all_coordinates(front);
        assert forall|i: int| 0 <= i < samples.len() implies {
            &&& all[4 * i] == (#[trigger] samples[i]).target_x
            &&& all[4 * i + 1] == samples[i].target_y
            &&& all[4 * i + 2] == samples[i].actual_x
            &&& all[4 * i + 3] == samples[i].actual_y
        } by {
            if i < n {
                assert(front[i] == samples[i]);
                assert(all[4 * i] == before[4 * i]);
                assert(all[4 * i + 1] == before[4 * i + 1]);
                assert(all[4 * i + 2] == before[4 * i + 2]);
                assert(all[4 * i + 3] == before[4 * i + 3]);
            }
        }
    }
}

/// A refusal says what is wrong: the number of samples, where there are not
/// four; or else the first coordinate, sample by sample and each in the order
/// of its members, that is not in the unit interval.
pub proof fn law_refusals_name_the_first_fault(samples: Seq<TouchSample>, e: KioskConfigError)
    requires
        samples_refused(samples, e),
    ensures
        !samples_accepted(samples),
        match e {
            KioskConfigError::SampleCountMismatch(n) => n == samples.len() && n != 4,
            KioskConfigError::SampleOutOfRange(bits) => samples.len() == 4 && !in_unit_interval(
                bits,
            ) && exists|i: int|
                0 <= i < 4 && samples_accepted_up_to(samples, i) && first_fault(
                    #[trigger] samples[i],
                    bits,
                ),
            KioskConfigError::InvalidRotation(_) => false,
        },
{
    lemma_coordinates_by_sample(samples);
    let all = all_coordinates(samples);
    if let KioskConfigError::SampleOutOfRange(bits) = e {
        let k = choose|k: int| #[trigger] first_out_of_range(all, k) && all[k] == bits;
        let i = k / 4;
        assert(k == 4 * i + k % 4);
        assert forall|j: int| 0 <= j < i implies {
            &&& in_unit_interval((#[trigger] samples[j]).target_x)
            &&& in_unit_interval(samples[j].target_y)
            &&& in_unit_interval(samples[j].actual_x)
            &&& in_unit_interval(samples[j].actual_y)
        } by {
            assert(in_unit_interval(all[4 * j]));
            assert(in_unit_interval(all[4 * j + 1]));
            assert(in_unit_interval(all[4 * j + 2]));
            assert(in_unit_interval(all[4 * j + 3]));
        }
        let s = samples[i];
        assert(4 * i < k ==> in_unit_interval(all[4 * i]));
        assert(4 * i + 1 < k ==> in_unit_interval(all[4 * i + 1]));
        assert(4 * i + 2 < k ==> in_unit_interval(all[4 * i + 2]));
        assert(first_fault(samples[i], bits));
    }
}

/// Whether all coordinates of the samples before the given one are in the unit
/// interval.
pub open spec fn samples_accepted_up_to(samples: Seq<TouchSample>, n: int) -> bool {
    forall|j: int|
        0 <= j < n ==> {
            &&& in_unit_interval((#[trigger] samples[j]).target_x)
            &&& in_unit_interval(samples[j].target_y)
            &&& in_unit_interval(samples[j].actual_x)
            &&& in_unit_interval(samples[j].actual_y)
        }
}

/// Whether `bits` is the first coordinate of a sample that is not in the unit
/// interval.
pub open spec fn first_fault(s: TouchSample, bits: u64) -> bool {
    if !in_unit_interval(s.target_x) {
        bits == s.target_x
    } else if !in_unit_interval(s.target_y) {
        bits == s.target_y
    } else if !in_unit_interval(s.actual_x) {
        bits == s.actual_x
    } else {
        !in_unit_interval(s.actual_y) && bits == s.actual_y
    }
}

/// The derived calibration is a candidate that no other beats, and the first
/// such: no residual is less than its own, and every earlier one is greater.
/// Its place in the search order gives its triple.
pub proof fn law_first_of_the_least_is_derived(
    d: DerivedTouchCalibration,
    mean_errors: Seq<u64>,
    finite: int,
) -> (k: int)
    requires
        mean_errors.len() == CANDIDATES,
        is_best(d, mean_errors),
        0 <= finite < CANDIDATES,
        lt(mean_errors[finite], 0x7ff0_0000_0000_0000),
    ensures
        0 <= k < CANDIDATES,
        d.mean_error == mean_errors[k],
        forall|j: int| 0 <= j < CANDIDATES ==> !lt(#[trigger] mean_errors[j], d.mean_error),
        forall|j: int|
            0 <= j < k ==> is_nan(#[trigger] mean_errors[j]) || lt(d.mean_error, mean_errors[j]),
        d.rotation@ == (if k < 4 {
            "0"@
        } else if k < 8 {
            "90"@
        } else if k < 12 {
            "180"@
        } else {
            "270"@
        }),
        d.hflip <==> k % 4 == 1 || k % 4 == 3,
        d.vflip <==> k % 4 == 2 || k % 4 == 3,
{
    assert(lt(mean_errors[finite], INFINITY));
    let k = choose|k: int| #[trigger] is_winner(mean_errors, k) && is_candidate(d, mean_errors, k);
    assert(is_winner(mean_errors, k) && is_candidate(d, mean_errors, k));
    k
}

/// Where no candidate has a residual below infinity, the derived calibration is
/// the unrotated, unflipped one.
pub proof fn law_nothing_derived_without_a_residual(
    d: DerivedTouchCalibration,
    mean_errors: Seq<u64>,
)
    requires
        is_best(d, mean_errors),
        forall|k: int|
            0 <= k < mean_errors.len() ==> !lt(#[trigger] mean_errors[k], 0x7ff0_0000_0000_0000),
    ensures
        d.rotation@ == "0"@,
        !d.hflip,
        !d.vflip,
        d.mean_error == 0x7ff0_0000_0000_0000,
{
}

/// The wizard persists what it reports: it accepts exactly the samples that are
/// accepted, and once its steps are carried out, a reader sees the very triple
/// of the calibration that is given back, and nothing else has changed.
pub proof fn law_wizard_persists_what_it_reports(
    samples: Seq<TouchSample>,
    mean_errors: Seq<u64>,
    r: Result<Change<DerivedTouchCalibration>, KioskConfigError>,
)
    requires
        mean_errors.len() == CANDIDATES,
        wizard_outcome(samples, mean_errors, r),
    ensures
        r is Ok <==> samples_accepted(samples),
        r matches Ok(change) ==> is_best(change.applied, mean_errors) && leads_to(
            change,
            |before: DisplayModel|
                DisplayModel {
                    touch_rotation: change.applied.rotation@,
                    touch_hflip: change.applied.hflip,
                    touch_vflip: change.applied.vflip,
                    ..before
                },
        ),
        r matches Err(e) ==> samples_refused(samples, e),
{
    match r {
        Ok(change) => {
            let d = change.applied;
            lemma_best_rotation_is_canonical(d, mean_errors);
            law_touch_steps_are_safe(d.rotation@, d.hflip, d.vflip);
            assert forall|files: Files|
                settings_in(#[trigger] after_steps(files, step_models(change.steps@))) == (
                DisplayModel {
                    touch_rotation: d.rotation@,
                    touch_hflip: d.hflip,
                    touch_vflip: d.vflip,
                    ..settings_in(files)
                }) by {
                law_touch_calibration_reads_back(files, d.rotation@, d.hflip, d.vflip);
            }
        },
        Err(e) => {
            law_refusals_name_the_first_fault(samples, e);
        },
    }
}

} // verus!
