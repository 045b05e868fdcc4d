//! The messages that the page sends about its settings: what each leads to, and
//! what the page is told in turn.
//!
//! The shell reads a message's payload, carries out the planned steps and runs
//! the reply.

use crate::calibration::{
    derive_and_apply_touch_calibration, DerivedTouchCalibration, TouchSample,
};
use crate::overlay::FsStep;
use crate::settings::{set_display_rotation, set_touch_calibration, Change, KioskConfigError};
use crate::shell::{wizard_result, wizard_result_script};
use vstd::prelude::*;

verus! {

use crate::calibration::{
    is_best,
    law_wizard_persists_what_it_reports,
    samples_accepted,
    wizard_outcome,
};
use crate::overlay::{after_steps, never_torn, step_models, Files, StepModel};
use crate::settings::{
    display_rotation_outcome,
    law_display_rotation_is_set,
    law_touch_calibration_is_set,
    normalised,
    settings_in,
    touch_outcome,
    DisplayModel,
};
use crate::shell::{wizard_model, wizard_script};

/// The members of a request to set the touch calibration.
#[derive(Debug)]
pub struct TouchRequest {
    /// The rotation.
    pub rotation: String,
    /// The horizontal flip, where the request has one.
    pub hflip: Option<bool>,
    /// The vertical flip, where the request has one.
    pub vflip: Option<bool>,
}

/// A message of the page. A payload that cannot be read is none.
#[derive(Debug)]
pub enum PageMessage {
    /// Set the rotation of the display to the text that was sent.
    DisplayRotation { text: String },
    /// Set the touch calibration.
    TouchCalibration { request: Option<TouchRequest> },
    /// Derive the touch calibration from samples, and set it. With the samples
    /// comes the residual that each candidate leaves on them.
    TouchSamples { samples: Option<Vec<TouchSample>>, mean_errors: [u64; 16] },
}

/// What a message leads to. Nothing comes of a payload that cannot be read.
#[derive(Debug)]
pub enum Plan {
    /// The rotation of the display.
    DisplayRotation(Result<Change<&'static str>, KioskConfigError>),
    /// The touch calibration.
    TouchCalibration(Option<Result<Change<(&'static str, bool, bool)>, KioskConfigError>>),
    /// The derived touch calibration.
    Wizard(Option<Result<Change<DerivedTouchCalibration>, KioskConfigError>>),
}

/// A flag of a request; one that is missing is not set.
pub open spec fn requested(flag: Option<bool>) -> bool {
    flag == Some(true)
}

/// Whether `plan` is what `message` leads to.
pub open spec fn is_plan_for(message: PageMessage, plan: Plan) -> bool {
    match message {
        PageMessage::DisplayRotation { text } => plan matches Plan::DisplayRotation(r)
            && display_rotation_outcome(text@, r),
        PageMessage::TouchCalibration { request: Some(t) } => plan matches Plan::TouchCalibration(
            Some(r),
        ) && touch_outcome(t.rotation@, requested(t.hflip), requested(t.vflip), r),
        PageMessage::TouchCalibration { request: None } => plan matches Plan::TouchCalibration(
            None,
        ),
        PageMessage::TouchSamples { samples: Some(samples), mean_errors } => plan matches
            Plan::Wizard(Some(r)) && wizard_outcome(samples@, mean_errors@, r),
        PageMessage::TouchSamples { samples: None, .. } => plan matches Plan::Wizard(None),
    }
}

/// Decides what a message leads to.
pub fn plan_for(message: &PageMessage) -> (r: Plan)
    ensures
        is_plan_for(*message, r),
{
    match message {
        PageMessage::DisplayRotation { text } => Plan::DisplayRotation(
            set_display_rotation(text.as_str()),
        ),
        PageMessage::TouchCalibration { request } => match request {
            Some(t) => Plan::TouchCalibration(
                Some(
                    set_touch_calibration(
                        t.rotation.as_str(),
                        t.hflip.unwrap_or(false),
                        t.vflip.unwrap_or(false),
                    ),
                ),
            ),
            None => Plan::TouchCalibration(None),
        },
        PageMessage::TouchSamples { samples, mean_errors } => match samples {
            Some(samples) => Plan::Wizard(
                Some(derive_and_apply_touch_calibration(samples.as_slice(), mean_errors)),
            ),
            None => Plan::Wizard(None),
        },
    }
}

/// The steps of a plan. A refused or unreadable request has none.
pub open spec fn planned_steps(plan: Plan) -> Seq<StepModel> {
    match plan {
        Plan::DisplayRotation(Ok(change)) => step_models(change.steps@),
        Plan::TouchCalibration(Some(Ok(change))) => step_models(change.steps@),
        Plan::Wizard(Some(Ok(change))) => step_models(change.steps@),
        _ => Seq::empty(),
    }
}

/// The calibration that the wizard has derived and applied: `persisted` tells
/// whether all steps of the plan were carried out.
pub open spec fn applied_calibration(plan: Plan, persisted: bool) -> Option<
    DerivedTouchCalibration,
> {
    match plan {
        Plan::Wizard(Some(Ok(change))) => if persisted {
            Some(change.applied)
        } else {
            None
        },
        _ => None,
    }
}

/// The reply to a message: a wizard message is answered by one script, any
/// other by none.
pub open spec fn reply_text(plan: Plan, persisted: bool, mean_error: Seq<char>) -> Option<
    Seq<char>,
> {
    match plan {
        Plan::Wizard(_) => Some(
            wizard_script(wizard_model(applied_calibration(plan, persisted), mean_error)),
        ),
        _ => None,
    }
}

impl Plan {
    /// The steps that carry the plan out, where it has any.
    pub fn steps(&self) -> (r: Option<&Vec<FsStep>>)
        ensures
            match r {
                Some(steps) => step_models(steps@) == planned_steps(*self),
                None => planned_steps(*self).len() == 0,
            },
    {
        match self {
            Plan::DisplayRotation(Ok(change)) => Some(&change.steps),
            Plan::TouchCalibration(Some(Ok(change))) => Some(&change.steps),
            Plan::Wizard(Some(Ok(change))) => Some(&change.steps),
            _ => None,
        }
    }

    /// The script that answers the message, once the steps were carried out or
    /// one has failed. The mean residual comes in words.
    pub fn reply(&self, persisted: bool, mean_error: &str) -> (r: Option<String>)
        ensures
            match r {
                Some(script) => reply_text(*self, persisted, mean_error@) == Some(script@),
                None => reply_text(*self, persisted, mean_error@) is None,
            },
    {
        match self {
            Plan::Wizard(outcome) => {
                let derived = match outcome {
                    Some(Ok(change)) => if persisted {
                        Some(&change.applied)
                    } else {
                        None
                    },
                    _ => None,
                };
                Some(wizard_result_script(&wizard_result(derived, mean_error)))
            },
            _ => None,
        }
    }
}

/// A message whose payload cannot be read, or whose request is refused, writes
/// nothing.
pub proof fn law_refused_messages_write_nothing(message: PageMessage, plan: Plan)
    requires
        is_plan_for(message, plan),
    ensures
        match message {
            PageMessage::DisplayRotation { text } => normalised(text@) is None,
            PageMessage::TouchCalibration { request } => request is None || normalised(
                request->0.rotation@,
            ) is None,
            PageMessage::TouchSamples { samples, .. } => samples is None || !samples_accepted(
                samples->0@,
            ),
        } <==> planned_steps(plan).len() == 0,
{
}

/// The page is told exactly one result of each wizard message, and none of any
/// other message.
pub proof fn law_wizard_messages_are_answered_once(
    message: PageMessage,
    plan: Plan,
    persisted: bool,
    mean_error: Seq<char>,
)
    requires
        is_plan_for(message, plan),
    ensures
        reply_text(plan, persisted, mean_error) is Some <==> message is TouchSamples,
{
}

/// The page is told of a success exactly where the samples could be read and
/// were accepted and all steps were carried out, and then it is told the best
/// candidate. In every other case it is told of a failure.
pub proof fn law_success_is_told_where_applied(
    samples: Option<Vec<TouchSample>>,
    mean_errors: [u64; 16],
    plan: Plan,
    persisted: bool,
    mean_error: Seq<char>,
)
    requires
        is_plan_for(PageMessage::TouchSamples { samples, mean_errors }, plan),
    ensures
        samples is Some && samples_accepted(samples->0@) && persisted <==> applied_calibration(
            plan,
            persisted,
        ) is Some,
        match applied_calibration(plan, persisted) {
            Some(d) => is_best(d, mean_errors@) && reply_text(
                plan,
                persisted,
                mean_error,
            ) == Some(wizard_script(Some((d.rotation@, d.hflip, d.vflip, mean_error)))),
            None => reply_text(plan, persisted, mean_error) == Some(wizard_script(None)),
        },
{
}

/// Once an accepted touch message is carried out, a reader sees its rotation in
/// canonical form and each flip as the message has it, true or false, and not
/// set where the message has none; nothing else has changed. A refused or
/// unreadable one changes nothing.
pub proof fn law_touch_message_reads_back(files: Files, request: Option<TouchRequest>, plan: Plan)
    requires
        is_plan_for(PageMessage::TouchCalibration { request }, plan),
    ensures
        match request {
            Some(t) => match normalised(t.rotation@) {
                Some(n) => settings_in(after_steps(files, planned_steps(plan))) == (DisplayModel {
                    touch_rotation: n,
                    touch_hflip: (match t.hflip {
                        Some(flag) => flag,
                        None => false,
                    }),
                    touch_vflip: (match t.vflip {
                        Some(flag) => flag,
                        None => false,
                    }),
                    ..settings_in(files)
                }),
                None => after_steps(files, planned_steps(plan)) == files,
            },
            None => after_steps(files, planned_steps(plan)) == files,
        },
        never_torn(planned_steps(plan)),
{
    if let Some(t) = request {
        let r = plan->TouchCalibration_0->0;
        law_touch_calibration_is_set(t.rotation@, requested(t.hflip), requested(t.vflip), r);
        if let Ok(change) = r {
            assert(settings_in(after_steps(files, step_models(change.steps@))) == (DisplayModel {
                touch_rotation: normalised(t.rotation@)->0,
                touch_hflip: requested(t.hflip),
                touch_vflip: requested(t.vflip),
                ..settings_in(files)
            }));
        }
    }
}

/// Once an accepted rotation message is carried out, a reader sees the rotation
/// of its text, and nothing else has changed. A refused one changes nothing.
pub proof fn law_rotation_message_reads_back(files: Files, text: String, plan: Plan)
    requires
        is_plan_for(PageMessage::DisplayRotation { text }, plan),
    ensures
        match normalised(text@) {
            Some(n) => settings_in(after_steps(files, planned_steps(plan))) == (DisplayModel {
                display_rotation: n,
                ..settings_in(files)
            }),
            None => after_steps(files, planned_steps(plan)) == files,
        },
        never_torn(planned_steps(plan)),
{
    let r = plan->DisplayRotation_0;
    law_display_rotation_is_set(text@, r);
    if let Ok(change) = r {
        assert(settings_in(after_steps(files, step_models(change.steps@))) == (DisplayModel {
            display_rotation: normalised(text@)->0,
            ..settings_in(files)
        }));
    }
}

/// Once an accepted wizard message is carried out, a reader sees the very triple
/// that the page is told, and nothing else has changed. A refused or unreadable
/// one changes nothing.
pub proof fn law_wizard_message_reads_back(
    files: Files,
    samples: Option<Vec<TouchSample>>,
    mean_errors: [u64; 16],
    plan: Plan,
    mean_error: Seq<char>,
)
    requires
        is_plan_for(PageMessage::TouchSamples { samples, mean_errors }, plan),
    ensures
        match samples {
            Some(samples) => if samples_accepted(samples@) {
                exists|d: DerivedTouchCalibration| #[trigger]
                    is_best(d, mean_errors@) && settings_in(
                        after_steps(files, planned_steps(plan)),
                    ) == (DisplayModel {
                        touch_rotation: d.rotation@,
                        touch_hflip: d.hflip,
                        touch_vflip: d.vflip,
                        ..settings_in(files)
                    }) && reply_text(plan, true, mean_error) == Some(
                        wizard_script(Some((d.rotation@, d.hflip, d.vflip, mean_error))),
                    )
            } else {
                after_steps(files, planned_steps(plan)) == files
            },
            None => after_steps(files, planned_steps(plan)) == files,
        },
        never_torn(planned_steps(plan)),
{
    if let Some(taps) = samples {
        let r = plan->Wizard_0->0;
        law_wizard_persists_what_it_reports(taps@, mean_errors@, r);
        if let Ok(change) = r {
            let d = change.applied;
            assert(is_best(d, mean_errors@));
            assert(settings_in(after_steps(files, step_models(change.steps@))) == (DisplayModel {
                touch_rotation: d.rotation@,
                touch_hflip: d.hflip,
                touch_vflip: d.vflip,
                ..settings_in(files)
            }));
        }
    }
}

} // verus!
