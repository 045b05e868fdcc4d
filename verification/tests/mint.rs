use evo_kiosk::mint::{
    mint_request_body, read_frame, renew_delay_ms, write_frame, MintErrDetails, MintErrFields,
    MintOk, Retry, RetryAction, MAX_FRAME,
};
use evo_kiosk::{
    js_string_literal, kiosk_sock_path, local_storage_inject_script, parse_mint_response,
    renew_at_ms, MintError, MintedSession, DEFAULT_KIOSK_SOCK,
};
use serde_json::Value;

/// A member that may be missing. One of another type makes the answer
/// unreadable.
fn member<'a, T>(
    object: &'a Value,
    name: &str,
    read: impl Fn(&'a Value) -> Option<T>,
) -> Result<Option<T>, String> {
    match object.get(name) {
        Some(v) => read(v).map(Some).ok_or(format!("invalid type: {name}")),
        None => Ok(None),
    }
}

/// A member that may be missing or null.
fn optional<'a, T>(
    object: &'a Value,
    name: &str,
    read: impl Fn(&'a Value) -> Option<T>,
) -> Result<Option<T>, String> {
    match object.get(name) {
        Some(Value::Null) => Ok(None),
        _ => member(object, name, read),
    }
}

fn string(v: &Value) -> Option<String> {
    v.as_str().map(str::to_string)
}

fn read_error(answer: &Value) -> Result<MintErrFields, String> {
    let e = member(answer, "error", |v| v.as_object().map(|_| v))?.ok_or("missing field")?;
    Ok(MintErrFields {
        message: member(e, "message", string)?.unwrap_or_default(),
        subclass: optional(e, "subclass", string)?,
        details: optional(e, "details", Some)?.map(|d| MintErrDetails {
            subclass: d.get("subclass").and_then(string),
        }),
    })
}

fn read_success(answer: &Value) -> Result<MintOk, String> {
    if !answer.is_object() {
        return Err("invalid type".to_string());
    }
    Ok(MintOk {
        local_kiosk_session_minted: member(answer, "local_kiosk_session_minted", Value::as_bool)?
            .unwrap_or(false),
        token: optional(answer, "token", string)?,
        token_id: optional(answer, "token_id", string)?,
        expires_at_ms: optional(answer, "expires_at_ms", Value::as_u64)?,
    })
}

/// Reads an answer, a JSON object, into its members.
fn read_answer(body: &[u8]) -> (Option<MintErrFields>, Result<MintOk, String>) {
    match serde_json::from_slice::<Value>(body) {
        Ok(v) => (read_error(&v).ok(), read_success(&v)),
        Err(e) => (None, Err(e.to_string())),
    }
}

fn answer(body: &[u8]) -> Result<MintedSession, MintError> {
    let (err, ok) = read_answer(body);
    parse_mint_response(err, ok)
}

#[test]
fn mint_success_round_trip() {
    let request = write_frame(&mint_request_body("kiosk-boot").unwrap()).unwrap();
    let header = [request[0], request[1], request[2], request[3]];
    let n = read_frame(header).unwrap();
    assert_eq!(n, request.len() - 4);
    let req = &request[4..];
    assert!(String::from_utf8_lossy(req).contains("mint_local_kiosk_session"));
    assert!(String::from_utf8_lossy(req).contains("kiosk-boot"));
    let resp = br#"{"local_kiosk_session_minted":true,"token":"abc.TOK-1","token_id":"tid1","expires_at_ms":999}"#;
    let minted = answer(resp).expect("mint");
    assert_eq!(minted.token, "abc.TOK-1");
    assert_eq!(minted.token_id, "tid1");
    assert_eq!(minted.expires_at_ms, 999);
}

#[test]
fn mint_refused_surfaces_subclass() {
    let resp = br#"{"error":{"class":"permission_denied","message":"peer not admitted","subclass":"peer_not_admitted"}}"#;
    let err = answer(resp).unwrap_err();
    match err {
        MintError::Refused { subclass, .. } => {
            assert_eq!(subclass, "peer_not_admitted");
        }
        other => panic!("unexpected {other:?}"),
    }
}

#[test]
fn renew_at_ms_leads_expiry() {
    let now = 1_000_000u64;
    let exp = now + 24 * 60 * 60 * 1000;
    let renew = renew_at_ms(exp, now);
    assert_eq!(renew, exp - 5 * 60 * 1000);
}

#[test]
fn js_escape_quotes() {
    assert_eq!(js_string_literal("a'b\\c"), "a\\'b\\\\c");
    let script = local_storage_inject_script("tok'en");
    assert!(script.contains("localStorage.setItem('evoBearer','tok\\'en')"));
}

#[test]
fn parse_mint_ok_unit() {
    let body =
        br#"{"local_kiosk_session_minted":true,"token":"t","token_id":"i","expires_at_ms":1}"#;
    let ok = answer(body).unwrap();
    assert_eq!(ok.token, "t");
}

#[test]
fn parse_mint_response_incomplete_when_flag_true_but_fields_empty() {
    let body =
        br#"{"local_kiosk_session_minted":true,"token":"","token_id":"","expires_at_ms":1}"#;
    let err = answer(body).unwrap_err();
    assert!(matches!(err, MintError::Incomplete));
}

#[test]
fn parse_mint_response_incomplete_when_flag_false() {
    let body =
        br#"{"local_kiosk_session_minted":false,"token":"t","token_id":"i","expires_at_ms":1}"#;
    assert!(matches!(answer(body).unwrap_err(), MintError::Incomplete));
}

#[test]
fn js_escape_closes_script_tag() {
    let escaped = js_string_literal("abc</script>def");
    assert!(!escaped.contains("</script>"));
    assert!(escaped.contains("<\\/script>"));
    assert_eq!(js_string_literal("a/b"), "a/b");
}

#[test]
fn renew_at_ms_clamps_when_ttl_shorter_than_10min() {
    let now = 1_000_000u64;
    let exp = now + 60_000;
    assert_eq!(renew_at_ms(exp, now), exp - 30_000);
}

#[test]
fn renew_at_ms_returns_now_when_already_expired() {
    assert_eq!(renew_at_ms(500, 1_000), 1_000);
}

#[test]
fn mint_with_retry_exhausts_and_returns_last_error() {
    let mut retry = Retry::new(3, 1_000_000);
    let mut waits = Vec::new();
    let mut attempt = 0;
    let last = loop {
        attempt += 1;
        let failure = Err(MintError::Connect(format!("attempt {attempt}")));
        match retry.after_attempt(failure) {
            RetryAction::Wait(nanos) => waits.push(nanos),
            RetryAction::Finish(outcome) => break outcome.unwrap_err(),
        }
    };
    assert_eq!(waits, [1_000_000, 2_000_000]);
    assert!(matches!(last, MintError::Connect(cause) if cause == "attempt 3"));
}

#[test]
fn frame_too_large_refused_on_read() {
    let bogus: u32 = 2 * 1024 * 1024;
    let err = read_frame(bogus.to_be_bytes()).unwrap_err();
    assert!(matches!(err, MintError::FrameTooLarge { len: 2097152 }));
}

#[test]
fn kiosk_sock_path_honours_env_override() {
    assert_eq!(kiosk_sock_path(Some(b"/tmp/x.sock")), b"/tmp/x.sock");
    assert_eq!(kiosk_sock_path(Some(b"")), DEFAULT_KIOSK_SOCK.as_bytes());
    assert_eq!(kiosk_sock_path(None), b"/run/evo/kiosk.sock");
    assert_eq!(kiosk_sock_path(Some(b"/tmp/\xff")), b"/tmp/\xff");
}

#[test]
fn the_request_is_a_json_object_with_the_trimmed_reason() {
    let body = mint_request_body("  say \"hi\"\n ").unwrap();
    assert_eq!(
        String::from_utf8(body).unwrap(),
        r#"{"op":"mint_local_kiosk_session","reason":"say \"hi\""}"#
    );
}

#[test]
fn reasons_are_escaped_as_json_strings() {
    let body = mint_request_body("a\"b\\c/\u{8}\t\n\u{c}\r\u{0}\u{1b}\u{1f}\u{7f}\u{e9}\u{1f600}<").unwrap();
    assert_eq!(
        String::from_utf8(body).unwrap(),
        "{\"op\":\"mint_local_kiosk_session\",\"reason\":\"a\\\"b\\\\c/\\b\\t\\n\\f\\r\\u0000\\u001b\\u001f\u{7f}\u{e9}\u{1f600}<\"}"
    );
}

#[test]
fn a_blank_reason_is_refused() {
    match mint_request_body(" \t\u{2003}") {
        Err(MintError::Refused { subclass, message }) => {
            assert_eq!(subclass, "blank_reason");
            assert_eq!(message, "mint reason must be non-empty");
        }
        other => panic!("unexpected {other:?}"),
    }
}

#[test]
fn frames_carry_a_big_endian_length() {
    assert_eq!(write_frame(b"abc").unwrap(), b"\0\0\0\x03abc");
    let long = vec![7u8; 0x01_02_03];
    let bytes = write_frame(&long).unwrap();
    assert_eq!(&bytes[..4], &[0, 1, 2, 3]);
    assert_eq!(&bytes[4..], &long[..]);
    assert_eq!(read_frame([0, 1, 2, 3]).unwrap(), 0x01_02_03);
}

#[test]
fn frame_lengths_have_their_limits() {
    assert!(matches!(read_frame([0; 4]), Err(MintError::Incomplete)));
    assert_eq!(read_frame([0, 0x10, 0, 0]).unwrap(), MAX_FRAME);
    assert!(matches!(
        read_frame([0, 0x10, 0, 1]),
        Err(MintError::FrameTooLarge { len: 0x10_0001 })
    ));
    assert!(matches!(
        read_frame([0xff; 4]),
        Err(MintError::FrameTooLarge { len: 0xffff_ffff })
    ));
}

#[test]
fn a_refusal_takes_its_subclass_from_where_it_is() {
    let nested = br#"{"error":{"message":"m","details":{"subclass":"deep"}}}"#;
    assert!(matches!(
        answer(nested),
        Err(MintError::Refused { subclass, message }) if subclass == "deep" && message == "m"
    ));
    let bare = br#"{"error":{"message":"m"}}"#;
    assert!(matches!(
        answer(bare),
        Err(MintError::Refused { subclass, .. }) if subclass == "error"
    ));
    let wrong_type = br#"{"error":{"details":{"subclass":3}}}"#;
    assert!(matches!(
        answer(wrong_type),
        Err(MintError::Refused { subclass, message }) if subclass == "error" && message.is_empty()
    ));
}

#[test]
fn members_of_another_type_are_not_read() {
    for body in [
        &br#"{"local_kiosk_session_minted":true,"token":7,"token_id":"i","expires_at_ms":1}"#[..],
        &br#"{"local_kiosk_session_minted":null,"token":"t","token_id":"i","expires_at_ms":1}"#[..],
        &br#"{"local_kiosk_session_minted":true,"token":"t","token_id":"i","expires_at_ms":-1}"#[..],
        &br#"[]"#[..],
    ] {
        assert!(matches!(answer(body), Err(MintError::Parse(_))));
    }
    // A null member is absent, and so is an error that cannot be read.
    let null = br#"{"local_kiosk_session_minted":true,"token":null,"token_id":"i","expires_at_ms":1}"#;
    assert!(matches!(answer(null), Err(MintError::Incomplete)));
    let null_details = br#"{"error":{"details":null},"local_kiosk_session_minted":true,"token":"t","token_id":"i","expires_at_ms":1}"#;
    assert_eq!(answer(null_details).unwrap().token, "t");
    let bad_error = br#"{"error":{"message":3},"local_kiosk_session_minted":true,"token":"t","token_id":"i","expires_at_ms":1}"#;
    assert_eq!(answer(bad_error).unwrap().token, "t");
}

#[test]
fn an_error_is_preferred_to_a_session() {
    let both = br#"{"error":{"subclass":"s"},"local_kiosk_session_minted":true,"token":"t","token_id":"i","expires_at_ms":1}"#;
    assert!(matches!(answer(both), Err(MintError::Refused { .. })));
    // An error that says nothing is none.
    let empty = br#"{"error":{},"local_kiosk_session_minted":true,"token":"t","token_id":"i","expires_at_ms":1}"#;
    assert_eq!(answer(empty).unwrap().token_id, "i");
}

#[test]
fn a_session_needs_all_its_members() {
    for body in [
        &br#"{"local_kiosk_session_minted":true,"token_id":"i","expires_at_ms":1}"#[..],
        &br#"{"local_kiosk_session_minted":true,"token":"t","expires_at_ms":1}"#[..],
        &br#"{"local_kiosk_session_minted":true,"token":"t","token_id":"i"}"#[..],
        &br#"{"local_kiosk_session_minted":true,"token":"t","token_id":"","expires_at_ms":1}"#[..],
        &br#"{"token":"t","token_id":"i","expires_at_ms":1}"#[..],
    ] {
        assert!(matches!(answer(body), Err(MintError::Incomplete)));
    }
    assert!(matches!(answer(b"not json"), Err(MintError::Parse(_))));
}

#[test]
fn errors_have_their_words() {
    let words = |e: MintError| e.message();
    assert_eq!(
        words(MintError::Connect("refused".to_string())),
        "kiosk socket connect failed: refused"
    );
    assert_eq!(
        words(MintError::Io("broken pipe".to_string())),
        "kiosk socket I/O failed: broken pipe"
    );
    assert_eq!(
        words(MintError::Parse("EOF".to_string())),
        "mint response JSON invalid: EOF"
    );
    assert_eq!(
        words(MintError::Refused {
            subclass: "s".to_string(),
            message: "m".to_string()
        }),
        "mint refused: s: m"
    );
    assert_eq!(
        words(MintError::Incomplete),
        "mint response missing token fields"
    );
    assert_eq!(
        words(MintError::FrameTooLarge { len: 2097152 }),
        "frame too large (2097152 bytes)"
    );
}

#[test]
fn error_words_never_hold_the_bearer() {
    for body in [
        &br#"{"local_kiosk_session_minted":false,"token":"s3cr3t","token_id":"i","expires_at_ms":1}"#[..],
        &br#"{"local_kiosk_session_minted":true,"token":"s3cr3t","token_id":""}"#[..],
        &br#"{"error":{"subclass":"s"},"local_kiosk_session_minted":true,"token":"s3cr3t","token_id":"i","expires_at_ms":1}"#[..],
    ] {
        assert!(!answer(body).unwrap_err().message().contains("s3cr3t"));
    }
}

#[test]
fn waits_double_up_to_two_seconds() {
    let mut retry = Retry::new(8, 250_000_000);
    let mut waits = Vec::new();
    while let RetryAction::Wait(nanos) = retry.after_attempt(Err(MintError::Incomplete)) {
        waits.push(nanos / 1_000_000);
    }
    assert_eq!(waits, [250, 500, 1000, 2000, 2000, 2000, 2000]);
    let mut long = Retry::new(2, 10_000_000_000);
    assert!(matches!(
        long.after_attempt(Err(MintError::Incomplete)),
        RetryAction::Wait(2_000_000_000)
    ));
}

#[test]
fn there_is_always_one_attempt_and_success_ends_the_series() {
    let mut none = Retry::new(0, 1);
    assert!(matches!(
        none.after_attempt(Err(MintError::Incomplete)),
        RetryAction::Finish(Err(MintError::Incomplete))
    ));
    let mut retry = Retry::new(5, 1);
    let session = MintedSession {
        token: "t".to_string(),
        token_id: "i".to_string(),
        expires_at_ms: 1,
    };
    assert!(matches!(
        retry.after_attempt(Ok(session)),
        RetryAction::Finish(Ok(s)) if s.token == "t"
    ));
}

#[test]
fn renewal_is_halfway_under_ten_minutes_and_five_before_from_there_on() {
    assert_eq!(renew_at_ms(600_000, 0), 300_000);
    assert_eq!(renew_at_ms(599_999, 0), 300_000);
    assert_eq!(renew_at_ms(600_001, 0), 300_001);
    assert_eq!(renew_at_ms(1, 0), 1);
    assert_eq!(renew_at_ms(u64::MAX, 0), u64::MAX - 300_000);
    assert_eq!(renew_at_ms(7, 7), 7);
}

#[test]
fn renewal_waits_at_least_a_second() {
    assert_eq!(renew_delay_ms(5_000, 1_000), 4_000);
    assert_eq!(renew_delay_ms(1_001, 0), 1_001);
    assert_eq!(renew_delay_ms(1_000, 0), 1_000);
    assert_eq!(renew_delay_ms(0, 1_000), 1_000);
}

#[test]
fn escapes_cover_every_line_terminator() {
    assert_eq!(
        js_string_literal("a\nb\rc\u{2028}d\u{2029}e"),
        "a\\nb\\rc\\u2028d\\u2029e"
    );
    assert_eq!(js_string_literal("<//"), "<\\//");
    assert_eq!(js_string_literal(""), "");
    assert_eq!(js_string_literal("\u{1f600}\"<"), "\u{1f600}\"<");
}

#[test]
fn the_inject_script_is_exact() {
    assert_eq!(
        local_storage_inject_script("t</script>"),
        "(function(){try{localStorage.setItem('evoBearer','t<\\/script>');}catch(_e){}})();"
    );
}
