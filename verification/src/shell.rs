//! The shell around the web view: how it is started, what it does with a
//! session or the lack of one, and what it says to the page.

use crate::binary64::{less_than, FIVE, INFINITY, ONE, QUARTER, SIGN};
use crate::calibration::DerivedTouchCalibration;
use crate::js::local_storage_inject_script;
use crate::mint::MintedSession;
use crate::text::{chars_of, same_text_ignoring_ascii_case};
use vstd::prelude::*;

verus! {

use crate::binary64::{
    is_finite,
    is_nan,
    lemma_constants,
    lemma_magnitude_order,
    lt,
    magnitude,
    magnitude_value,
    value,
    FRACTIONS,
};
use crate::js::{
    closes_tag,
    escaped,
    inject_script,
    law_inject_script_closes_no_tag,
    law_script_stores_the_token,
    stores_bearer,
};
use crate::text::{eq_ignore_ascii_case, law_only_letter_case_is_ignored, trimmed};
use vstd::arithmetic::power2::{lemma_pow2_pos, lemma_pow2_unfold, pow2};

/// The page that a kiosk shows unless it is told otherwise.
pub const DEFAULT_URL: &'static str = "http://127.0.0.1/";

/// The audit reason of a mint unless the environment gives one.
pub const DEFAULT_MINT_REASON: &'static str = "kiosk-boot";

/// How long after a failed silent renewal the next one is tried.
pub const RENEWAL_RETRY_MS: u64 = 30_000;

/// The URL to show: the first argument after the program's name, or else the
/// environment's, or else the default. Empty ones do not count.
pub open spec fn start_url(argv: Seq<String>, var: Option<&str>) -> Seq<char> {
    if argv.len() >= 2 && argv[1]@.len() > 0 {
        argv[1]@
    } else {
        match var {
            Some(url) => if url@.len() > 0 {
                url@
            } else {
                DEFAULT_URL@
            },
            None => DEFAULT_URL@,
        }
    }
}

/// The URL to show: an argument, or else the environment's, or else the
/// default.
pub fn resolve_url(argv: &[String], var: Option<&str>) -> (r: String)
    ensures
        r@ == start_url(argv@, var),
{
    if argv.len() >= 2 && !argv[1].as_str().is_empty() {
        return argv[1].clone();
    }
    match var {
        Some(url) => if url.is_empty() {
            DEFAULT_URL.to_owned()
        } else {
            url.to_owned()
        },
        None => DEFAULT_URL.to_owned(),
    }
}

/// The audit reason of a mint: the environment's, trimmed, unless it is blank.
pub open spec fn audit_reason(var: Option<&str>) -> Seq<char> {
    match var {
        Some(raw) => if trimmed(raw@).len() > 0 {
            trimmed(raw@)
        } else {
            DEFAULT_MINT_REASON@
        },
        None => DEFAULT_MINT_REASON@,
    }
}

/// The audit reason of a mint: the environment's, trimmed, unless it is blank.
pub fn mint_reason(var: Option<&str>) -> (r: String)
    ensures
        r@ == audit_reason(var),
        trimmed(r@).len() > 0,
{
    proof {
        reveal_strlit("kiosk-boot");
        crate::text::lemma_trimmed_is_identity("kiosk-boot"@);
    }
    match var {
        Some(raw) => {
            let t = raw.trim();
            if t.is_empty() {
                DEFAULT_MINT_REASON.to_owned()
            } else {
                proof {
                    crate::text::lemma_trimmed_ends(raw@);
                    crate::text::lemma_trimmed_is_identity(trimmed(raw@));
                }
                t.to_owned()
            }
        },
        None => DEFAULT_MINT_REASON.to_owned(),
    }
}

/// Whether the environment names a zoom level: it is not absent, blank or
/// `auto` in any case.
pub open spec fn names_zoom(var: Option<&str>) -> bool {
    var matches Some(raw) && trimmed(raw@).len() > 0 && !eq_ignore_ascii_case(
        trimmed(raw@),
        "auto"@,
    )
}

/// The text that a zoom level is read from, where the environment names one.
pub open spec fn zoom_source(var: Option<&str>) -> Option<Seq<char>> {
    if names_zoom(var) {
        Some(trimmed(var->0@))
    } else {
        None
    }
}

/// The text of a zoom level that is to be read as a number: the environment's,
/// trimmed, where it names one.
pub fn zoom_text(var: Option<&str>) -> (r: Option<String>)
    ensures
        match r {
            Some(text) => zoom_source(var) == Some(text@),
            None => zoom_source(var) is None,
        },
{
    match var {
        Some(raw) => {
            let t = raw.trim();
            if t.is_empty() || same_text_ignoring_ascii_case(t, "auto") {
                None
            } else {
                Some(t.to_owned())
            }
        },
        None => None,
    }
}

/// The number nearest to `bits` from a quarter to five.
pub open spec fn clamped_zoom(bits: u64) -> u64 {
    if lt(bits, QUARTER) {
        QUARTER
    } else if lt(FIVE, bits) {
        FIVE
    } else {
        bits
    }
}

/// The zoom level that a number stands for: a positive, finite number is
/// brought into the range from a quarter to five; anything else is no zoom
/// level.
pub fn accepted_zoom(bits: u64) -> (r: Option<u64>)
    ensures
        r == (if is_finite(bits) && value(bits) > 0 {
            Some(clamped_zoom(bits))
        } else {
            None
        }),
{
    proof {
        lemma_magnitude_order(0, magnitude(bits));
    }
    if bits == 0 || bits >= INFINITY {
        return None;
    }
    if less_than(bits, QUARTER) {
        Some(QUARTER)
    } else if less_than(FIVE, bits) {
        Some(FIVE)
    } else {
        Some(bits)
    }
}

/// The zoom level that comes of a number that was read, or of none: 1 unless it
/// is positive and finite.
pub open spec fn zoom_of(parsed: Option<u64>) -> u64 {
    match parsed {
        Some(bits) => if is_finite(bits) && value(bits) > 0 {
            clamped_zoom(bits)
        } else {
            ONE
        },
        None => ONE,
    }
}

/// The zoom level that comes of a number that was read, or of none.
pub fn zoom_level(parsed: Option<u64>) -> (r: u64)
    ensures
        r == zoom_of(parsed),
{
    match parsed {
        Some(bits) => match accepted_zoom(bits) {
            Some(level) => level,
            None => ONE,
        },
        None => ONE,
    }
}

/// The zoom level to start with, given what the environment says and what that
/// reads as.
pub open spec fn resolved_zoom(var: Option<&str>, parsed: Option<u64>) -> u64 {
    if names_zoom(var) {
        zoom_of(parsed)
    } else {
        ONE
    }
}

/// The zoom level to start with: 1 unless the environment names one. `parsed`
/// is what the text that it names reads as, where that is a number.
pub fn resolve_zoom(var: Option<&str>, parsed: Option<u64>) -> (r: u64)
    ensures
        r == resolved_zoom(var, parsed),
{
    match zoom_text(var) {
        Some(_) => zoom_level(parsed),
        None => ONE,
    }
}

/// Every zoom level is from a quarter to five. (1 is two to the 1074th units.)
pub proof fn law_zoom_is_in_range(parsed: Option<u64>)
    ensures
        pow2(1072) <= value(zoom_of(parsed)) <= 5 * pow2(1074),
{
    lemma_constants();
    lemma_magnitude_order(magnitude(QUARTER), magnitude(FIVE));
    lemma_magnitude_order(magnitude(QUARTER), magnitude(ONE));
}

/// Whether a number differs from 1 by more than the distance from 1 to the next
/// larger number.
pub open spec fn differs_from_one(bits: u64) -> bool {
    !is_nan(bits) && (value(bits) - pow2(1074) > pow2(1022) || pow2(1074) - value(bits) > pow2(
        1022,
    ))
}

/// Whether a zoom level differs from 1 by more than the distance from 1 to the
/// next larger number, and so has to be set.
pub fn zoom_differs(bits: u64) -> (r: bool)
    ensures
        r == differs_from_one(bits),
{
    proof {
        lemma_constants();
        lemma_near_one();
        lemma_pow2_pos(1022);
        lemma_magnitude_order(0, magnitude(bits));
        lemma_magnitude_order(magnitude(bits), magnitude(0x3fef_ffff_ffff_fffe));
        lemma_magnitude_order(magnitude(0x3ff0_0000_0000_0001), magnitude(bits));
    }
    if bits >= SIGN {
        bits - SIGN <= INFINITY
    } else {
        bits <= INFINITY && (bits < 0x3fef_ffff_ffff_fffe || bits > 0x3ff0_0000_0000_0001)
    }
}

proof fn lemma_near_one()
    ensures
        value(0x3ff0_0000_0000_0001) == value(ONE) + pow2(1022),
        value(0x3fef_ffff_ffff_fffe) == value(ONE) - pow2(1022),
        pow2(1022) < value(ONE),
{
    let f = FRACTIONS as nat;
    let up = magnitude(0x3ff0_0000_0000_0001);
    let down = magnitude(0x3fef_ffff_ffff_fffe);
    let p = pow2(1022);
    let q = pow2(1021);
    assert(magnitude(ONE) / f == 1023 && magnitude(ONE) % f == 0);
    assert(up / f == 1023 && up % f == 1);
    assert(down / f == 1022 && down % f == f - 2);
    lemma_pow2_unfold(1022);
    lemma_pow2_pos(1021);
    assert(magnitude_value(magnitude(ONE)) == f * p);
    assert((f + 1) * p == f * p + p) by (nonlinear_arith);
    assert((f + (f - 2)) * q == f * p - p) by (nonlinear_arith)
        requires
            p == 2 * q,
    ;
    assert(p < f * p) by (nonlinear_arith)
        requires
            p > 0,
            f > 1,
    ;
}

/// How a character is written in a page.
pub open spec fn html_char(c: char) -> Seq<char> {
    if c == '&' {
        seq!['&', 'a', 'm', 'p', ';']
    } else if c == '<' {
        seq!['&', 'l', 't', ';']
    } else if c == '>' {
        seq!['&', 'g', 't', ';']
    } else if c == '"' {
        seq!['&', 'q', 'u', 'o', 't', ';']
    } else {
        seq![c]
    }
}

/// How text is written in a page.
pub open spec fn html_text(s: Seq<char>) -> Seq<char>
    decreases s.len(),
{
    if s.len() == 0 {
        Seq::empty()
    } else {
        html_char(s[0]) + html_text(s.drop_first())
    }
}

/// Escapes text for a page.
pub fn html_escape(text: &str) -> (r: String)
    ensures
        r@ == html_text(text@),
{
    let cs = chars_of(text);
    let mut out = String::new();
    assert(text@.skip(0) == text@);
    for i in 0..cs.len()
        invariant
            cs@ == text@,
            out@ + html_text(text@.skip(i as int)) == html_text(text@),
    {
        let c = cs[i];
        let ghost before = out@;
        match c {
            '&' => {
                out.append("&amp;");
            },
            '<' => {
                out.append("&lt;");
            },
            '>' => {
                out.append("&gt;");
            },
            '"' => {
                out.append("&quot;");
            },
            c => {
                out.push(c);
            },
        }
        proof {
            reveal_strlit("&amp;");
            reveal_strlit("&lt;");
            reveal_strlit("&gt;");
            reveal_strlit("&quot;");
            let rest = text@.skip(i as int);
            assert(rest[0] == c);
            assert(rest.drop_first() == text@.skip(i + 1));
            assert(out@ =~= before + html_char(c));
            assert(before + (html_char(c) + html_text(rest.drop_first())) =~= out@ + html_text(
                rest.drop_first(),
            ));
        }
    }
    assert(text@.skip(text@.len() as int).len() == 0);
    assert(out@ + Seq::<char>::empty() == out@);
    out
}

/// The text that an engine reads out of a page, where it holds no markup and
/// no other character references than the four that are written.
pub open spec fn html_value(s: Seq<char>) -> Option<Seq<char>>
    decreases s.len(),
{
    if s.len() == 0 {
        Some(Seq::empty())
    } else if s[0] == '<' || s[0] == '>' || s[0] == '"' {
        None
    } else if s[0] != '&' {
        first_of(s[0], html_value(s.skip(1)))
    } else if s.len() >= 5 && s.take(5) == html_char('&') {
        first_of('&', html_value(s.skip(5)))
    } else if s.len() >= 4 && s.take(4) == html_char('<') {
        first_of('<', html_value(s.skip(4)))
    } else if s.len() >= 4 && s.take(4) == html_char('>') {
        first_of('>', html_value(s.skip(4)))
    } else if s.len() >= 6 && s.take(6) == html_char('"') {
        first_of('"', html_value(s.skip(6)))
    } else {
        None
    }
}

/// `c` in front of what was read, where anything was.
pub open spec fn first_of(c: char, rest: Option<Seq<char>>) -> Option<Seq<char>> {
    match rest {
        Some(t) => Some(seq![c] + t),
        None => None,
    }
}

/// Escaped text reads back as the text: it adds no markup to a page and loses
/// nothing.
pub proof fn law_html_text_reads_back(text: Seq<char>)
    ensures
        html_value(html_text(text)) == Some(text),
    decreases text.len(),
{
    if text.len() > 0 {
        let c = text[0];
        let head = html_char(c);
        let tail = html_text(text.drop_first());
        law_html_text_reads_back(text.drop_first());
        let whole = head + tail;
        assert(whole.take(head.len() as int) =~= head);
        assert(whole.skip(head.len() as int) =~= tail);
        assert(seq![c] + text.drop_first() =~= text);
        assert(whole[0] == head[0]);
        if head.len() > 1 {
            assert(whole[1] == head[1]);
            assert(whole.len() >= 5 ==> whole.take(5)[1] == head[1]);
            assert(whole.take(4)[1] == head[1]);
        }
    }
}

/// Escaped text holds no angle bracket and no double quote.
pub proof fn law_html_text_holds_no_markup(text: Seq<char>)
    ensures
        forall|i: int|
            0 <= i < html_text(text).len() ==> (#[trigger] html_text(text)[i]) != '<' && html_text(
                text,
            )[i] != '>' && html_text(text)[i] != '"',
    decreases text.len(),
{
    if text.len() > 0 {
        law_html_text_holds_no_markup(text.drop_first());
        let head = html_char(text[0]);
        let tail = html_text(text.drop_first());
        assert forall|i: int| 0 <= i < html_text(text).len() implies (#[trigger] html_text(text)[i])
            != '<' && html_text(text)[i] != '>' && html_text(text)[i] != '"' by {
            if i < head.len() {
                assert(html_text(text)[i] == head[i]);
            } else {
                assert(html_text(text)[i] == tail[i - head.len()]);
            }
        }
    }
}

/// The failure page, up to the detail.
pub const FAILURE_HEAD: &'static str = "<!doctype html><html><head><meta charset=utf-8><title>evo kiosk</title><style>body{margin:0;background:#111;color:#eee;font:20px/1.4 system-ui,sans-serif;display:flex;min-height:100vh;align-items:center;justify-content:center;padding:2rem;}main{max-width:36rem}h1{font-size:1.4rem;margin:0 0 .75rem}p{margin:.5rem 0;opacity:.85}code{opacity:.7;font-size:.85rem}</style></head><body><main><h1>Display session unavailable</h1><p>The kiosk shell could not obtain a local session from the steward.</p><p>Check that evo is running, this user is allowlisted for kiosk mint, and a display is attached. The unit will retry automatically.</p><p><code>";

/// The failure page, after the detail.
pub const FAILURE_TAIL: &'static str = "</code></p></main></body></html>";

/// The page that is shown when there is no session.
pub open spec fn failure_page(detail: Seq<char>) -> Seq<char> {
    FAILURE_HEAD@ + html_text(detail) + FAILURE_TAIL@
}

/// The page that is shown when there is no session, with the reason on it.
pub fn mint_failure_html(detail: &str) -> (r: String)
    ensures
        r@ == failure_page(detail@),
{
    let mut r = FAILURE_HEAD.to_owned();
    r.append(html_escape(detail).as_str());
    r.append(FAILURE_TAIL);
    r
}

/// Why a session is being minted.
#[derive(Debug, Clone, Copy, PartialEq, Eq, Structural)]
pub enum MintPhase {
    /// The shell has started.
    Boot,
    /// The session is about to expire.
    SilentRenewal,
    /// A silent renewal has failed.
    RenewalRetry,
    /// The page's process has ended.
    AfterCrash,
}

/// What the shell does. Actions are carried out in order.
#[derive(Debug)]
pub enum ShellAction {
    /// Make this the only script that runs at the start of every document.
    InstallBearer { script: String },
    /// Run a script in the page that is shown.
    RunScript { script: String },
    /// Load the kiosk's URL.
    LoadUrl,
    /// Mint silently at the renewal time of a session.
    ScheduleRenewal { expires_at_ms: u64 },
    /// Mint again after a failed silent renewal.
    RetryRenewal { delay_ms: u64 },
    /// Show a page in place of the kiosk's.
    ShowFailure { html: String },
}

/// What an action does, over text.
pub enum ActionModel {
    InstallBearer { script: Seq<char> },
    RunScript { script: Seq<char> },
    LoadUrl,
    ScheduleRenewal { expires_at_ms: u64 },
    RetryRenewal { delay_ms: u64 },
    ShowFailure { html: Seq<char> },
}

impl View for ShellAction {
    type V = ActionModel;

    open spec fn view(&self) -> ActionModel {
        match *self {
            ShellAction::InstallBearer { script } => ActionModel::InstallBearer { script: script@ },
            ShellAction::RunScript { script } => ActionModel::RunScript { script: script@ },
            ShellAction::LoadUrl => ActionModel::LoadUrl,
            ShellAction::ScheduleRenewal { expires_at_ms } => ActionModel::ScheduleRenewal {
                expires_at_ms,
            },
            ShellAction::RetryRenewal { delay_ms } => ActionModel::RetryRenewal { delay_ms },
            ShellAction::ShowFailure { html } => ActionModel::ShowFailure { html: html@ },
        }
    }
}

/// What a list of actions does, over text.
pub open spec fn action_models(actions: Seq<ShellAction>) -> Seq<ActionModel> {
    actions.map_values(|a: ShellAction| a@)
}

/// What follows a mint that gave a session.
pub open spec fn actions_on_session(phase: MintPhase, token: Seq<char>, expires_at_ms: u64) -> Seq<
    ActionModel,
> {
    let script = inject_script(escaped(token));
    let install = ActionModel::InstallBearer { script };
    let schedule = ActionModel::ScheduleRenewal { expires_at_ms };
    match phase {
        MintPhase::Boot => seq![install, schedule, ActionModel::LoadUrl],
        MintPhase::SilentRenewal => seq![install, ActionModel::RunScript { script }, schedule],
        MintPhase::RenewalRetry => seq![install, ActionModel::LoadUrl, schedule],
        MintPhase::AfterCrash => seq![install, ActionModel::LoadUrl, schedule],
    }
}

/// What follows a mint that failed.
pub open spec fn actions_on_failure(phase: MintPhase, detail: Seq<char>) -> Seq<ActionModel> {
    match phase {
        MintPhase::SilentRenewal => seq![
            ActionModel::RetryRenewal { delay_ms: RENEWAL_RETRY_MS },
        ],
        _ => seq![ActionModel::ShowFailure { html: failure_page(detail) }],
    }
}

/// What follows a mint.
pub open spec fn actions_after(phase: MintPhase, outcome: Result<MintedSession, String>) -> Seq<
    ActionModel,
> {
    match outcome {
        Ok(session) => actions_on_session(phase, session.token@, session.expires_at_ms),
        Err(detail) => actions_on_failure(phase, detail@),
    }
}

/// Decides what follows a mint, given why it was made. A failure comes in
/// words.
pub fn after_mint(phase: MintPhase, outcome: &Result<MintedSession, String>) -> (r: Vec<
    ShellAction,
>)
    ensures
        action_models(r@) == actions_after(phase, *outcome),
{
    let mut actions: Vec<ShellAction> = Vec::new();
    match outcome {
        Ok(session) => {
            let script = local_storage_inject_script(session.token.as_str());
            let schedule = ShellAction::ScheduleRenewal { expires_at_ms: session.expires_at_ms };
            actions.push(ShellAction::InstallBearer { script: script.clone() });
            match phase {
                MintPhase::Boot => {
                    actions.push(schedule);
                    actions.push(ShellAction::LoadUrl);
                },
                MintPhase::SilentRenewal => {
                    actions.push(ShellAction::RunScript { script });
                    actions.push(schedule);
                },
                MintPhase::RenewalRetry | MintPhase::AfterCrash => {
                    actions.push(ShellAction::LoadUrl);
                    actions.push(schedule);
                },
            }
        },
        Err(detail) => match phase {
            MintPhase::SilentRenewal => {
                actions.push(ShellAction::RetryRenewal { delay_ms: RENEWAL_RETRY_MS });
            },
            _ => {
                actions.push(ShellAction::ShowFailure { html: mint_failure_html(detail.as_str()) });
            },
        },
    }
    assert(action_models(actions@) =~= actions_after(phase, *outcome));
    actions
}

/// The kiosk's page is loaded only with a bearer in place: wherever the page
/// is loaded, a bearer was installed before.
pub proof fn law_no_page_without_a_bearer(
    phase: MintPhase,
    outcome: Result<MintedSession, String>,
    i: int,
)
    requires
        0 <= i < actions_after(phase, outcome).len(),
        actions_after(phase, outcome)[i] is LoadUrl,
    ensures
        outcome is Ok,
        exists|j: int|
            0 <= j < i && (#[trigger] actions_after(phase, outcome)[j]) is InstallBearer,
{
    assert(actions_after(phase, outcome)[0] is InstallBearer);
}

/// Whether an action sets a timer for another mint.
pub open spec fn sets_timer(a: ActionModel) -> bool {
    a is ScheduleRenewal || a is RetryRenewal
}

/// A session is always scheduled for renewal, once, and a failed silent
/// renewal is tried once more; every other failure is shown and sets no timer.
pub proof fn law_one_timer_at_a_time(phase: MintPhase, outcome: Result<MintedSession, String>)
    ensures
        (exists|i: int|
            0 <= i < actions_after(phase, outcome).len() && sets_timer(
                #[trigger] actions_after(phase, outcome)[i],
            )) <==> outcome is Ok || phase is SilentRenewal,
        forall|i: int, j: int|
            0 <= i < actions_after(phase, outcome).len() && 0 <= j < actions_after(
                phase,
                outcome,
            ).len() && sets_timer(#[trigger] actions_after(phase, outcome)[i]) && sets_timer(
                #[trigger] actions_after(phase, outcome)[j],
            ) ==> i == j,
        outcome is Err && !(phase is SilentRenewal) ==> actions_after(phase, outcome).len() == 1
            && actions_after(phase, outcome)[0] is ShowFailure,
{
    let actions = actions_after(phase, outcome);
    match outcome {
        Ok(_) => {
            assert(sets_timer(actions[if phase is Boot {
                1
            } else {
                2
            }]));
        },
        Err(_) => {
            if phase is SilentRenewal {
                assert(sets_timer(actions[0]));
            }
        },
    }
}

/// A silent renewal leaves the page that is shown in place, whatever comes of
/// it.
pub proof fn law_silent_renewal_keeps_the_page(outcome: Result<MintedSession, String>, i: int)
    requires
        0 <= i < actions_after(MintPhase::SilentRenewal, outcome).len(),
    ensures
        !(actions_after(MintPhase::SilentRenewal, outcome)[i] is LoadUrl),
        !(actions_after(MintPhase::SilentRenewal, outcome)[i] is ShowFailure),
{
}

/// Keeps at most one mint after a crash under way.
#[derive(Debug)]
pub struct CrashGuard {
    pub reminting: bool,
}

impl CrashGuard {
    /// A guard with no mint under way.
    pub fn new() -> (r: CrashGuard)
        ensures
            r.reminting == mint_under_way(Seq::empty()),
            nothing_under_way(r),
    {
        CrashGuard { reminting: false }
    }

    /// The page's process has ended. Whether a mint is to be started.
    pub fn crashed(&mut self) -> (r: bool)
        ensures
            crash_noted(*old(self), *final(self), r),
            forall|events: Seq<CrashEvent>|
                old(self).reminting == #[trigger] mint_under_way(events) ==> final(self).reminting
                    == mint_under_way(events.push(CrashEvent::Crashed)),
    {
        let start = !self.reminting;
        self.reminting = true;
        start
    }

    /// The mint that was started is over.
    pub fn settled(&mut self)
        ensures
            nothing_under_way(*final(self)),
            forall|events: Seq<CrashEvent>|
                old(self).reminting == #[trigger] mint_under_way(events) ==> final(self).reminting
                    == mint_under_way(events.push(CrashEvent::Settled)),
    {
        self.reminting = false;
    }
}

/// Whether a guard has no mint under way.
pub open spec fn nothing_under_way(guard: CrashGuard) -> bool {
    !guard.reminting
}

/// Whether a guard has noted a crash, and whether it was to start a mint.
pub open spec fn crash_noted(before: CrashGuard, after: CrashGuard, starts: bool) -> bool {
    starts == !before.reminting && after.reminting
}

/// A crash starts a mint where none is under way; the next one does not, until
/// the mint is over.
pub proof fn law_second_crash_starts_nothing(
    first: CrashGuard,
    second: CrashGuard,
    third: CrashGuard,
    starts: bool,
    starts_again: bool,
)
    requires
        crash_noted(first, second, starts),
        crash_noted(second, third, starts_again),
    ensures
        nothing_under_way(first) ==> starts,
        !starts_again,
        !nothing_under_way(second),
{
}

/// What a [`CrashGuard`] is told.
pub enum CrashEvent {
    /// The page's process has ended.
    Crashed,
    /// The mint that was started is over.
    Settled,
}

/// Whether a mint is under way after `events`.
pub open spec fn mint_under_way(events: Seq<CrashEvent>) -> bool {
    events.len() > 0 && events.last() is Crashed
}

/// How many mints were started over the course of `events`.
pub open spec fn mints_started(events: Seq<CrashEvent>) -> nat
    decreases events.len(),
{
    if events.len() == 0 {
        0
    } else if events.last() is Crashed && !mint_under_way(events.drop_last()) {
        mints_started(events.drop_last()) + 1
    } else {
        mints_started(events.drop_last())
    }
}

/// How many mints were over in the course of `events`.
pub open spec fn mints_settled(events: Seq<CrashEvent>) -> nat
    decreases events.len(),
{
    if events.len() == 0 {
        0
    } else if events.last() is Settled {
        mints_settled(events.drop_last()) + 1
    } else {
        mints_settled(events.drop_last())
    }
}

/// However many crashes come, at most one mint is started before the one
/// before it is over; and none is outstanding unless one is under way.
pub proof fn law_crash_storm_starts_one_mint(events: Seq<CrashEvent>)
    ensures
        mints_started(events) <= mints_settled(events) + 1,
        !mint_under_way(events) ==> mints_started(events) <= mints_settled(events),
    decreases events.len(),
{
    if events.len() > 0 {
        law_crash_storm_starts_one_mint(events.drop_last());
    }
}

/// Watches the file that launches the touch wizard from afar, by its time of
/// modification in nanoseconds.
#[derive(Debug)]
pub struct TriggerWatch {
    pub last: Option<i128>,
}

/// Whether the wizard is launched: its file is there, and not as it was seen
/// last.
pub open spec fn launches(last: Option<i128>, current: Option<i128>) -> bool {
    current is Some && current != last
}

/// Whether a watch has seen `current` last.
pub open spec fn has_seen(watch: TriggerWatch, current: Option<i128>) -> bool {
    watch.last == current
}

/// A trigger launches once: whatever a watch has seen last, it launches for
/// exactly what is there and differs from that.
pub proof fn law_trigger_launches_once(
    watch: TriggerWatch,
    seen: Option<i128>,
    current: Option<i128>,
)
    requires
        has_seen(watch, seen),
    ensures
        launches(watch.last, current) <==> (current matches Some(now) && seen != Some(now)),
        !launches(watch.last, seen),
{
}

impl TriggerWatch {
    /// A watch that counts what is there already as seen.
    pub fn new(current: Option<i128>) -> (r: TriggerWatch)
        ensures
            r.last == current,
            has_seen(r, current),
    {
        TriggerWatch { last: current }
    }

    /// Notes what is there now. Whether the wizard is to be launched: the file
    /// has appeared or was written again. That it is gone launches nothing.
    pub fn tick(&mut self, current: Option<i128>) -> (r: bool)
        ensures
            r == launches(old(self).last, current),
            has_seen(*final(self), current),
    {
        let fires = match (current, self.last) {
            (Some(now), Some(before)) => now != before,
            (Some(_), None) => true,
            (None, _) => false,
        };
        self.last = current;
        fires
    }
}

/// A file that is there when the watch begins launches nothing, nor does one
/// that stays as it is or goes away. One that appears or changes does.
pub proof fn law_only_a_new_trigger_launches(last: Option<i128>, seen: Option<i128>, next: i128)
    ensures
        !launches(seen, seen),
        !launches(last, None),
        launches(None, Some(next)),
        seen != Some(next) ==> launches(seen, Some(next)),
{
}

/// The script that launches the touch wizard in the page.
pub const CALIBRATE_LAUNCH_SCRIPT: &'static str = "(() => { window.evoTouchCalibrationLaunch = { launched_at_ms: Date.now() }; window.dispatchEvent(new CustomEvent('evo:touch-calibration-launch', {detail: window.evoTouchCalibrationLaunch})); })();";

/// What the wizard tells the page.
#[derive(Debug)]
pub struct WizardResult {
    /// `"0"`, `"90"`, `"180"` or `"270"`.
    pub rotation: String,
    pub hflip: bool,
    pub vflip: bool,
    /// The mean residual, as a decimal number.
    pub mean_error: String,
}

/// Rotation, horizontal flip, vertical flip and mean residual.
pub type WizardModel = (Seq<char>, bool, bool, Seq<char>);

impl View for WizardResult {
    type V = WizardModel;

    open spec fn view(&self) -> WizardModel {
        (self.rotation@, self.hflip, self.vflip, self.mean_error@)
    }
}

/// What the page is told of a calibration, where one was derived and applied.
pub open spec fn wizard_model(
    derived: Option<DerivedTouchCalibration>,
    mean_error: Seq<char>,
) -> Option<WizardModel> {
    match derived {
        Some(d) => Some((d.rotation@, d.hflip, d.vflip, mean_error)),
        None => None,
    }
}

/// The content of a result, where there is one.
pub open spec fn result_model(result: Option<WizardResult>) -> Option<WizardModel> {
    match result {
        Some(w) => Some(w@),
        None => None,
    }
}

/// What the page is told of a calibration: its triple, with the mean residual
/// in words, where one was derived and applied.
pub fn wizard_result(derived: Option<&DerivedTouchCalibration>, mean_error: &str) -> (r: Option<
    WizardResult,
>)
    ensures
        r is Some <==> derived is Some,
        result_model(r) == wizard_model(
            match derived {
                Some(d) => Some(*d),
                None => None,
            },
            mean_error@,
        ),
{
    match derived {
        Some(d) => Some(
            WizardResult {
                rotation: d.rotation.to_owned(),
                hflip: d.hflip,
                vflip: d.vflip,
                mean_error: mean_error.to_owned(),
            },
        ),
        None => None,
    }
}

/// A flag in a script.
pub open spec fn script_flag(flag: bool) -> Seq<char> {
    if flag {
        "true"@
    } else {
        "false"@
    }
}

/// The wizard's result as an object literal.
pub open spec fn wizard_detail(result: Option<WizardModel>) -> Seq<char> {
    match result {
        Some((rotation, hflip, vflip, mean_error)) => "{\"ok\":true,\"rotation\":\""@ + rotation
            + "\",\"hflip\":"@ + script_flag(hflip) + ",\"vflip\":"@ + script_flag(vflip)
            + ",\"mean_error\":"@ + mean_error + "}"@,
        None => "{\"ok\":false}"@,
    }
}

/// The script that stores the wizard's result and tells the page once that it
/// is there.
pub open spec fn wizard_script(result: Option<WizardModel>) -> Seq<char> {
    "(() => { const detail = "@ + wizard_detail(result)
        + "; window.evoTouchCalibrationDerived = detail; window.dispatchEvent(new CustomEvent('evo:touch-calibration-derived', {detail})); })();"@
}

/// The script that hands the wizard's result to the page: it stores the result
/// and tells the page that it is there.
pub fn wizard_result_script(result: &Option<WizardResult>) -> (r: String)
    ensures
        r@ == wizard_script(result_model(*result)),
{
    let detail = match result {
        Some(w) => {
            let mut d = "{\"ok\":true,\"rotation\":\"".to_owned();
            d.append(w.rotation.as_str());
            d.append("\",\"hflip\":");
            d.append(
                if w.hflip {
                    "true"
                } else {
                    "false"
                },
            );
            d.append(",\"vflip\":");
            d.append(
                if w.vflip {
                    "true"
                } else {
                    "false"
                },
            );
            d.append(",\"mean_error\":");
            d.append(w.mean_error.as_str());
            d.append("}");
            d
        },
        None => "{\"ok\":false}".to_owned(),
    };
    let mut r = "(() => { const detail = ".to_owned();
    r.append(detail.as_str());
    r.append(
        "; window.evoTouchCalibrationDerived = detail; window.dispatchEvent(new CustomEvent('evo:touch-calibration-derived', {detail})); })();",
    );
    r
}

/// The page can tell a success from a failure: no script says both.
pub proof fn law_success_and_failure_are_told_apart(w: WizardModel)
    ensures
        wizard_script(Some(w)) != wizard_script(None),
{
    reveal_strlit("(() => { const detail = ");
    reveal_strlit("{\"ok\":true,\"rotation\":\"");
    reveal_strlit("{\"ok\":false}");
    let n = "(() => { const detail = "@.len() as int;
    assert(wizard_script(Some(w))[n + 6] == wizard_detail(Some(w))[6]);
    assert(wizard_detail(Some(w))[6] == 't');
    assert(wizard_script(None)[n + 6] == wizard_detail(None)[6]);
}

/// Whether a page says that there is no session, and why: what stands at the
/// place of the reason reads as `detail`.
pub open spec fn shows_failure(page: Seq<char>, detail: Seq<char>) -> bool {
    exists|text: Seq<char>|
        page == "<!doctype html><html><head><meta charset=utf-8><title>evo kiosk</title><style>body{margin:0;background:#111;color:#eee;font:20px/1.4 system-ui,sans-serif;display:flex;min-height:100vh;align-items:center;justify-content:center;padding:2rem;}main{max-width:36rem}h1{font-size:1.4rem;margin:0 0 .75rem}p{margin:.5rem 0;opacity:.85}code{opacity:.7;font-size:.85rem}</style></head><body><main><h1>Display session unavailable</h1><p>The kiosk shell could not obtain a local session from the steward.</p><p>Check that evo is running, this user is allowlisted for kiosk mint, and a display is attached. The unit will retry automatically.</p><p><code>"@ + text
            + "</code></p></main></body></html>"@ && #[trigger] html_value(text) == Some(detail)
}

/// The failure page shows the detail that it was made for, whole.
pub proof fn law_failure_page_shows_the_detail(detail: Seq<char>)
    ensures
        shows_failure(failure_page(detail), detail),
{
    law_html_text_reads_back(detail);
    assert(html_value(html_text(detail)) == Some(detail));
}

/// Text without ampersands, angle brackets and double quotes is written in a
/// page as it is.
pub proof fn law_plain_text_stands_as_it_is(text: Seq<char>)
    requires
        forall|i: int|
            0 <= i < text.len() ==> #[trigger] text[i] != '&' && text[i] != '<' && text[i] != '>'
                && text[i] != '"',
    ensures
        html_text(text) == text,
    decreases text.len(),
{
    if text.len() > 0 {
        let rest = text.drop_first();
        assert forall|i: int| 0 <= i < rest.len() implies #[trigger] rest[i] != '&' && rest[i] != '<'
            && rest[i] != '>' && rest[i] != '"' by {
            assert(rest[i] == text[i + 1]);
        }
        law_plain_text_stands_as_it_is(rest);
        assert(text[0] != '&');
        assert(seq![text[0]] + rest =~= text);
    }
}

/// The page is the one of the first argument, or else of the environment, or
/// else the kiosk's own; empty ones are passed over, and it is never empty.
pub proof fn law_first_named_url_is_shown(argv: Seq<String>, url: &str)
    ensures
        argv.len() >= 2 && argv[1]@.len() > 0 ==> start_url(argv, Some(url)) == argv[1]@
            && start_url(argv, None) == argv[1]@,
        !(argv.len() >= 2 && argv[1]@.len() > 0) && url@.len() > 0 ==> start_url(argv, Some(url))
            == url@,
        !(argv.len() >= 2 && argv[1]@.len() > 0) ==> start_url(argv, None) == "http://127.0.0.1/"@,
        url@.len() == 0 ==> start_url(argv, Some(url)) == start_url(argv, None),
{
}

/// The audit reason is the environment's, trimmed, wherever that is not blank,
/// and `kiosk-boot` wherever it is.
pub proof fn law_audit_reason_is_the_environments(raw: &str)
    ensures
        trimmed(raw@).len() > 0 ==> audit_reason(Some(raw)) == trimmed(raw@),
        trimmed(raw@).len() == 0 ==> audit_reason(Some(raw)) == audit_reason(None),
        audit_reason(None) == "kiosk-boot"@,
{
}

/// A zoom level is named by every text but blank ones and the word `auto`, in
/// capitals or small letters.
pub proof fn law_every_text_but_auto_names_a_zoom(raw: &str)
    ensures
        !names_zoom(None),
        !names_zoom(Some(raw)) <==> trimmed(raw@).len() == 0 || {
            let t = trimmed(raw@);
            &&& t.len() == 4
            &&& t[0] == 'a' || t[0] == 'A'
            &&& t[1] == 'u' || t[1] == 'U'
            &&& t[2] == 't' || t[2] == 'T'
            &&& t[3] == 'o' || t[3] == 'O'
        },
{
    reveal_strlit("auto");
    let t = trimmed(raw@);
    let auto = "auto"@;
    law_only_letter_case_is_ignored(t, auto);
    assert(auto.len() == 4 && auto[0] == 'a' && auto[1] == 'u' && auto[2] == 't' && auto[3] == 'o');
    if eq_ignore_ascii_case(t, auto) {
        assert(t[0] == auto[0] || t[0] as int == auto[0] as int - 32);
        assert(t[1] == auto[1] || t[1] as int == auto[1] as int - 32);
        assert(t[2] == auto[2] || t[2] as int == auto[2] as int - 32);
        assert(t[3] == auto[3] || t[3] as int == auto[3] as int - 32);
    }
}

/// A zoom level from a quarter to five is taken as it is, a smaller positive
/// one as a quarter, a larger one as five, and what is no positive finite
/// number as 1.
pub proof fn law_zoom_is_the_nearest_in_range(bits: u64)
    ensures
        zoom_of(None) == 0x3ff0_0000_0000_0000,
        !(is_finite(bits) && value(bits) > 0) ==> zoom_of(Some(bits)) == 0x3ff0_0000_0000_0000,
        is_finite(bits) && pow2(1072) <= value(bits) <= 5 * pow2(1074) ==> zoom_of(Some(bits))
            == bits,
        is_finite(bits) && 0 < value(bits) < pow2(1072) ==> value(zoom_of(Some(bits))) == pow2(
            1072,
        ),
        is_finite(bits) && value(bits) > 5 * pow2(1074) ==> value(zoom_of(Some(bits))) == 5 * pow2(
            1074,
        ),
{
    lemma_constants();
    lemma_pow2_pos(1072);
    lemma_magnitude_order(magnitude(QUARTER), magnitude(FIVE));
}

/// A zoom level is left alone exactly where it is a number within the distance
/// from 1 to the next larger number of 1.
pub proof fn law_zoom_is_set_where_it_differs(bits: u64)
    ensures
        differs_from_one(bits) <==> !is_nan(bits) && !(value(0x3ff0_0000_0000_0000) - pow2(1022)
            <= value(bits) <= value(0x3ff0_0000_0000_0000) + pow2(1022)),
{
    lemma_constants();
}

/// What is done with a session is done with that session: every script that is
/// installed or run stores its token as the bearer, and every renewal is
/// scheduled for its expiry. A failure is shown nowhere and nothing is retried.
pub proof fn law_actions_carry_the_session(phase: MintPhase, session: MintedSession, i: int)
    requires
        0 <= i < actions_after(phase, Ok(session)).len(),
    ensures
        match actions_after(phase, Ok(session))[i] {
            ActionModel::InstallBearer { script } => stores_bearer(script, session.token@)
                && !closes_tag(script),
            ActionModel::RunScript { script } => stores_bearer(script, session.token@)
                && !closes_tag(script),
            ActionModel::ScheduleRenewal { expires_at_ms } => expires_at_ms
                == session.expires_at_ms,
            ActionModel::LoadUrl => true,
            ActionModel::RetryRenewal { .. } => false,
            ActionModel::ShowFailure { .. } => false,
        },
{
    law_script_stores_the_token(session.token@);
    law_inject_script_closes_no_tag(session.token@);
}

/// A session leads to three actions, the bearer first: at a silent renewal it
/// is given to the page that is shown, and otherwise the page is loaded. The
/// renewal is scheduled before the first page is loaded, and last otherwise.
pub proof fn law_session_leads_to_three_actions(phase: MintPhase, session: MintedSession)
    ensures
        ({
            let actions = actions_after(phase, Ok(session));
            &&& actions.len() == 3
            &&& actions[0] is InstallBearer
            &&& phase is Boot ==> actions[1] is ScheduleRenewal && actions[2] is LoadUrl
            &&& phase is SilentRenewal ==> actions[1] is RunScript && actions[2] is ScheduleRenewal
            &&& phase is RenewalRetry || phase is AfterCrash ==> actions[1] is LoadUrl && actions[2]
                is ScheduleRenewal
        }),
{
}

/// A failure leads to one action: after a silent renewal, another try in thirty
/// seconds; otherwise, a page that shows why.
pub proof fn law_failure_leads_to_one_action(phase: MintPhase, detail: String)
    ensures
        ({
            let actions = actions_after(phase, Err(detail));
            &&& actions.len() == 1
            &&& phase is SilentRenewal ==> actions[0] == (ActionModel::RetryRenewal {
                delay_ms: 30_000,
            })
            &&& !(phase is SilentRenewal) ==> (actions[0] matches ActionModel::ShowFailure { html }
                && shows_failure(html, detail@))
        }),
{
    law_failure_page_shows_the_detail(detail@);
}

/// The page is told the very triple of the calibration, each flip under its own
/// name, and the residual as it was worded.
pub proof fn law_page_is_told_the_triple(d: DerivedTouchCalibration, mean_error: Seq<char>)
    ensures
        wizard_script(wizard_model(Some(d), mean_error))
            == "(() => { const detail = {\"ok\":true,\"rotation\":\""@ + d.rotation@
            + "\",\"hflip\":"@ + (if d.hflip {
            "true"@
        } else {
            "false"@
        }) + ",\"vflip\":"@ + (if d.vflip {
            "true"@
        } else {
            "false"@
        }) + ",\"mean_error\":"@ + mean_error
            + "}; window.evoTouchCalibrationDerived = detail; window.dispatchEvent(new CustomEvent('evo:touch-calibration-derived', {detail})); })();"@,
        wizard_script(wizard_model(None, mean_error))
            == "(() => { const detail = {\"ok\":false}; window.evoTouchCalibrationDerived = detail; window.dispatchEvent(new CustomEvent('evo:touch-calibration-derived', {detail})); })();"@,
{
    reveal_strlit("(() => { const detail = ");
    reveal_strlit("{\"ok\":true,\"rotation\":\"");
    reveal_strlit("{\"ok\":false}");
    reveal_strlit("}");
    reveal_strlit("(() => { const detail = {\"ok\":true,\"rotation\":\"");
    reveal_strlit(
        "; window.evoTouchCalibrationDerived = detail; window.dispatchEvent(new CustomEvent('evo:touch-calibration-derived', {detail})); })();",
    );
    reveal_strlit(
        "}; window.evoTouchCalibrationDerived = detail; window.dispatchEvent(new CustomEvent('evo:touch-calibration-derived', {detail})); })();",
    );
    reveal_strlit(
        "(() => { const detail = {\"ok\":false}; window.evoTouchCalibrationDerived = detail; window.dispatchEvent(new CustomEvent('evo:touch-calibration-derived', {detail})); })();",
    );
    let tail = "; window.evoTouchCalibrationDerived = detail; window.dispatchEvent(new CustomEvent('evo:touch-calibration-derived', {detail})); })();"@;
    assert("(() => { const detail = "@ + "{\"ok\":true,\"rotation\":\""@
        =~= "(() => { const detail = {\"ok\":true,\"rotation\":\""@);
    assert("}"@ + tail
        =~= "}; window.evoTouchCalibrationDerived = detail; window.dispatchEvent(new CustomEvent('evo:touch-calibration-derived', {detail})); })();"@);
    assert("(() => { const detail = "@ + "{\"ok\":false}"@ + tail
        =~= "(() => { const detail = {\"ok\":false}; window.evoTouchCalibrationDerived = detail; window.dispatchEvent(new CustomEvent('evo:touch-calibration-derived', {detail})); })();"@);
    let middle = d.rotation@ + "\",\"hflip\":"@ + script_flag(d.hflip) + ",\"vflip\":"@
        + script_flag(d.vflip) + ",\"mean_error\":"@ + mean_error;
    assert(wizard_script(wizard_model(Some(d), mean_error)) =~= "(() => { const detail = "@
        + "{\"ok\":true,\"rotation\":\""@ + middle + ("}"@ + tail));
}

/// What the environment names decides the zoom level, and nothing else: where it
/// names none, the level is 1 whatever was read; where it names one, the text
/// is taken whole but for the white space around it.
pub proof fn law_zoom_is_the_environments(raw: &str, parsed: Option<u64>)
    ensures
        resolved_zoom(None, parsed) == 0x3ff0_0000_0000_0000,
        zoom_source(None) is None,
        names_zoom(Some(raw)) ==> resolved_zoom(Some(raw), parsed) == zoom_of(parsed)
            && zoom_source(Some(raw)) == Some(trimmed(raw@)),
        !names_zoom(Some(raw)) ==> resolved_zoom(Some(raw), parsed) == 0x3ff0_0000_0000_0000
            && zoom_source(Some(raw)) is None,
{
}

/// How each character is written in a page: four of them by name, all others as
/// they are.
pub proof fn law_four_characters_are_named(c: char)
    ensures
        html_text(seq![c]) == if c == '&' {
            "&amp;"@
        } else if c == '<' {
            "&lt;"@
        } else if c == '>' {
            "&gt;"@
        } else if c == '"' {
            "&quot;"@
        } else {
            seq![c]
        },
{
    reveal_strlit("&amp;");
    reveal_strlit("&lt;");
    reveal_strlit("&gt;");
    reveal_strlit("&quot;");
    let rest = seq![c].drop_first();
    assert(rest.len() == 0);
    assert(html_text(rest) == Seq::<char>::empty());
    assert(html_text(seq![c]) =~= html_char(c));
}

/// Text is written in a page part by part.
pub proof fn law_page_text_is_written_by_parts(a: Seq<char>, b: Seq<char>)
    ensures
        html_text(a + b) == html_text(a) + html_text(b),
    decreases a.len(),
{
    if a.len() == 0 {
        assert(a + b =~= b);
        assert(html_text(a) + html_text(b) =~= html_text(b));
    } else {
        assert((a + b).drop_first() =~= a.drop_first() + b);
        law_page_text_is_written_by_parts(a.drop_first(), b);
        assert(html_char(a[0]) + (html_text(a.drop_first()) + html_text(b)) =~= html_char(a[0])
            + html_text(a.drop_first()) + html_text(b));
    }
}

/// Nothing of an action is lost in its model, nor any action of a list.
pub proof fn law_actions_are_taken_whole(actions: Seq<ShellAction>, i: int)
    requires
        0 <= i < actions.len(),
    ensures
        action_models(actions).len() == actions.len(),
        match actions[i] {
            ShellAction::InstallBearer { script } => action_models(actions)[i] == (
            ActionModel::InstallBearer { script: script@ }),
            ShellAction::RunScript { script } => action_models(actions)[i] == (
            ActionModel::RunScript { script: script@ }),
            ShellAction::LoadUrl => action_models(actions)[i] == ActionModel::LoadUrl,
            ShellAction::ScheduleRenewal { expires_at_ms } => action_models(actions)[i] == (
            ActionModel::ScheduleRenewal { expires_at_ms }),
            ShellAction::RetryRenewal { delay_ms } => action_models(actions)[i] == (
            ActionModel::RetryRenewal { delay_ms }),
            ShellAction::ShowFailure { html } => action_models(actions)[i] == (
            ActionModel::ShowFailure { html: html@ }),
        },
{
}

/// A result is taken whole: its rotation, its flips and its residual.
pub proof fn law_results_are_taken_whole(w: WizardResult)
    ensures
        result_model(Some(w)) == Some((w.rotation@, w.hflip, w.vflip, w.mean_error@)),
        result_model(None) is None,
{
}

} // verus!
