use evo_kiosk::binary64::ONE;
use evo_kiosk::mint::MintedSession;
use evo_kiosk::shell::{
    accepted_zoom, after_mint, html_escape, mint_failure_html, mint_reason, resolve_url,
    resolve_zoom, wizard_result_script, zoom_differs, zoom_level, zoom_text, CrashGuard, MintPhase,
    ShellAction, TriggerWatch, WizardResult, CALIBRATE_LAUNCH_SCRIPT,
};

fn argv(args: &[&str]) -> Vec<String> {
    args.iter().map(|s| s.to_string()).collect()
}

fn session() -> MintedSession {
    MintedSession {
        token: "tok'en".to_string(),
        token_id: "id".to_string(),
        expires_at_ms: 42,
    }
}

fn name(action: &ShellAction) -> &'static str {
    match action {
        ShellAction::InstallBearer { .. } => "install",
        ShellAction::RunScript { .. } => "run",
        ShellAction::LoadUrl => "load",
        ShellAction::ScheduleRenewal { .. } => "schedule",
        ShellAction::RetryRenewal { .. } => "retry",
        ShellAction::ShowFailure { .. } => "failure",
    }
}

fn names(phase: MintPhase, outcome: &Result<MintedSession, String>) -> Vec<&'static str> {
    after_mint(phase, outcome).iter().map(name).collect()
}

#[test]
fn the_url_comes_from_the_argument_then_the_environment() {
    assert_eq!(
        resolve_url(&argv(&["kiosk", "http://a/"]), Some("http://b/")),
        "http://a/"
    );
    assert_eq!(
        resolve_url(&argv(&["kiosk", ""]), Some("http://b/")),
        "http://b/"
    );
    assert_eq!(resolve_url(&argv(&["kiosk"]), Some("")), "http://127.0.0.1/");
    assert_eq!(resolve_url(&[], None), "http://127.0.0.1/");
}

#[test]
fn the_reason_is_trimmed_and_never_blank() {
    assert_eq!(mint_reason(Some("  remint \n")), "remint");
    assert_eq!(mint_reason(Some(" \t ")), "kiosk-boot");
    assert_eq!(mint_reason(None), "kiosk-boot");
}

#[test]
fn automatic_zoom_is_not_read_as_a_number() {
    assert_eq!(zoom_text(None), None);
    assert_eq!(zoom_text(Some("  ")), None);
    assert_eq!(zoom_text(Some(" AUTO ")), None);
    assert_eq!(zoom_text(Some(" 1.5\n")).as_deref(), Some("1.5"));
    assert_eq!(zoom_text(Some("autos")).as_deref(), Some("autos"));
}

#[test]
fn zoom_levels_are_clamped() {
    for v in [
        0.1,
        0.25,
        0.26,
        1.0,
        4.9,
        5.0,
        5.1,
        f64::MAX,
        f64::MIN_POSITIVE,
        0.0,
        -0.0,
        -1.0,
        f64::INFINITY,
        f64::NEG_INFINITY,
        f64::NAN,
    ] {
        let want = if v.is_finite() && v > 0.0 {
            Some(v.clamp(0.25, 5.0))
        } else {
            None
        };
        assert_eq!(accepted_zoom(v.to_bits()).map(f64::from_bits), want, "{v}");
        let level = f64::from_bits(zoom_level(Some(v.to_bits())));
        assert_eq!(level, want.unwrap_or(1.0), "{v}");
    }
}

#[test]
fn whatever_names_no_zoom_level_is_one() {
    let zoom = |var: Option<&str>| {
        let parsed = zoom_text(var).and_then(|t| t.parse::<f64>().ok());
        f64::from_bits(resolve_zoom(var, parsed.map(f64::to_bits)))
    };
    assert_eq!(zoom(None), 1.0);
    for text in ["", " ", "AUTO", "0", "-2", "inf", "NaN", "big"] {
        assert_eq!(zoom(Some(text)), 1.0, "{text}");
    }
    assert_eq!(zoom(Some(" 1.5 ")), 1.5);
    assert_eq!(zoom(Some("10")), 5.0);
    assert_eq!(zoom(Some("0.1")), 0.25);
    // A number counts only where the text names one.
    assert_eq!(resolve_zoom(Some("auto"), Some(2.0f64.to_bits())), ONE);
    assert_eq!(resolve_zoom(None, Some(2.0f64.to_bits())), ONE);
    assert_eq!(zoom_level(None), ONE);
}

#[test]
fn zoom_is_set_only_where_it_differs_from_one() {
    for v in [
        0.25,
        0.5,
        1.0 - 2.0 * f64::EPSILON,
        1.0 - 1.5 * f64::EPSILON,
        1.0 - f64::EPSILON,
        1.0 - f64::EPSILON / 2.0,
        1.0,
        1.0 + f64::EPSILON,
        1.0 + 2.0 * f64::EPSILON,
        5.0,
        -0.0,
        f64::INFINITY,
        f64::NEG_INFINITY,
        f64::NAN,
    ] {
        let want = (v - 1.0f64).abs() > f64::EPSILON;
        assert_eq!(zoom_differs(v.to_bits()), want, "{v:?}");
    }
}

#[test]
fn details_are_escaped_on_the_failure_page() {
    assert_eq!(
        html_escape("a & <b> \"c\" 'd' &lt;"),
        "a &amp; &lt;b&gt; &quot;c&quot; 'd' &amp;lt;"
    );
    let page = mint_failure_html("<x>");
    assert!(page.starts_with("<!doctype html><html><head><meta charset=utf-8><title>evo kiosk</title><style>body{margin:0;background:#111;"));
    assert!(page.contains("<p>Check that evo is running, this user is allowlisted for kiosk mint, and a display is attached. The unit will retry automatically.</p><p><code>&lt;x&gt;</code></p>"));
    assert!(page.ends_with("</code></p></main></body></html>"));
}

#[test]
fn a_session_is_installed_before_the_page_loads() {
    let ok = Ok(session());
    assert_eq!(names(MintPhase::Boot, &ok), ["install", "schedule", "load"]);
    assert_eq!(
        names(MintPhase::SilentRenewal, &ok),
        ["install", "run", "schedule"]
    );
    assert_eq!(
        names(MintPhase::RenewalRetry, &ok),
        ["install", "load", "schedule"]
    );
    assert_eq!(
        names(MintPhase::AfterCrash, &ok),
        ["install", "load", "schedule"]
    );
    let actions = after_mint(MintPhase::SilentRenewal, &ok);
    let want = "(function(){try{localStorage.setItem('evoBearer','tok\\'en');}catch(_e){}})();";
    assert!(matches!(&actions[0], ShellAction::InstallBearer { script } if script == want));
    assert!(matches!(&actions[1], ShellAction::RunScript { script } if script == want));
    assert!(matches!(
        actions[2],
        ShellAction::ScheduleRenewal { expires_at_ms: 42 }
    ));
}

#[test]
fn a_failed_mint_is_shown_or_tried_once_more() {
    let failed = Err("mint refused: s: <m>".to_string());
    for phase in [
        MintPhase::Boot,
        MintPhase::RenewalRetry,
        MintPhase::AfterCrash,
    ] {
        let actions = after_mint(phase, &failed);
        assert_eq!(actions.len(), 1);
        assert!(matches!(
            &actions[0],
            ShellAction::ShowFailure { html } if html.contains("mint refused: s: &lt;m&gt;")
        ));
    }
    let actions = after_mint(MintPhase::SilentRenewal, &failed);
    assert_eq!(actions.len(), 1);
    assert!(matches!(
        actions[0],
        ShellAction::RetryRenewal { delay_ms: 30_000 }
    ));
}

#[test]
fn crash_storms_start_one_mint() {
    let mut guard = CrashGuard::new();
    assert!(guard.crashed());
    assert!(!guard.crashed());
    assert!(!guard.crashed());
    guard.settled();
    assert!(guard.crashed());
}

#[test]
fn the_wizard_is_launched_by_a_new_trigger_only() {
    let mut watch = TriggerWatch::new(Some(5));
    assert!(!watch.tick(Some(5)));
    assert!(watch.tick(Some(6)));
    assert!(!watch.tick(Some(6)));
    assert!(!watch.tick(None));
    assert!(!watch.tick(None));
    assert!(watch.tick(Some(6)));
    let mut fresh = TriggerWatch::new(None);
    assert!(!fresh.tick(None));
    assert!(fresh.tick(Some(-1)));
}

#[test]
fn scripts_are_exact() {
    assert_eq!(
        CALIBRATE_LAUNCH_SCRIPT,
        "(() => { \
             window.evoTouchCalibrationLaunch = { launched_at_ms: Date.now() }; \
             window.dispatchEvent(new CustomEvent('evo:touch-calibration-launch', \
                 {detail: window.evoTouchCalibrationLaunch})); \
         })();"
    );
    assert_eq!(
        wizard_result_script(&None),
        "(() => { \
             const detail = {\"ok\":false}; \
             window.evoTouchCalibrationDerived = detail; \
             window.dispatchEvent(new CustomEvent('evo:touch-calibration-derived', {detail})); \
         })();"
    );
    let result = Some(WizardResult {
        rotation: "90".to_string(),
        hflip: true,
        vflip: false,
        mean_error: format!("{:.6}", 0.0123456),
    });
    assert!(wizard_result_script(&result).contains(
        "const detail = {\"ok\":true,\"rotation\":\"90\",\"hflip\":true,\"vflip\":false,\"mean_error\":0.012346}; "
    ));
}
