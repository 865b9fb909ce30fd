use post_x::engine::{
    classify_identity_response, classify_media_response, classify_post_response, format_error,
    make_post_result, needs_auth_diagnostic, transport_error, XError,
};

#[test]
fn rate_limited_post_carries_reset_value() {
    let reset = Some("1700000000".to_string());
    let e = classify_post_response(429, &reset, "").unwrap_err();
    assert!(matches!(e, XError::RateLimit { .. }));
    if let XError::RateLimit { reset: r, message } = e {
        assert_eq!(r.as_deref(), Some("1700000000"));
        assert!(message.contains("1700000000"));
        assert_eq!(
            message,
            "Rate limited (429). Rate limit resets at timestamp 1700000000. \
             Try again later. Free tier allows ~17 tweets/24h."
        );
    }
}

#[test]
fn rate_limited_post_without_reset() {
    let e = classify_post_response(429, &None, "").unwrap_err();
    assert_eq!(
        e.render(),
        "Rate limited (429). Try again later. Free tier allows ~17 tweets/24h."
    );
}

#[test]
fn rate_limited_media_guidance() {
    let reset = Some("1700000000".to_string());
    let e = classify_media_response(429, &reset, "").unwrap_err();
    assert_eq!(
        e.render(),
        "Media upload rate limited (429). Rate limit resets at timestamp 1700000000. \
         Media uploads may have separate rate limits."
    );
    let e = classify_media_response(503, &None, "down").unwrap_err();
    assert_eq!(e.render(), "Media upload error (503): down");
}

#[test]
fn success_statuses_pass() {
    assert!(classify_post_response(200, &None, "").is_ok());
    assert!(classify_post_response(201, &None, "").is_ok());
    assert!(classify_media_response(299, &None, "").is_ok());
    assert!(classify_identity_response(204, "").is_ok());
}

#[test]
fn generic_service_error_embeds_status_and_body() {
    let e = classify_post_response(500, &None, "oops").unwrap_err();
    assert!(matches!(e, XError::Service { status: 500, .. }));
    assert_eq!(e.render(), "X API error (500): oops");
    let e = classify_identity_response(403, "no").unwrap_err();
    assert_eq!(e.render(), "X API error (403): no");
}

#[test]
fn auth_errors_are_distinguished() {
    let e = classify_post_response(401, &None, "denied").unwrap_err();
    assert!(matches!(e, XError::Auth { status: 401, .. }));
    assert_eq!(e.render(), "X API error (401): denied");
    assert!(needs_auth_diagnostic(401));
    assert!(!needs_auth_diagnostic(403));
}

#[test]
fn post_result_url_shape() {
    let r = make_post_result("123456".to_string(), "alice");
    assert_eq!(r.tweet_id, "123456");
    assert_eq!(r.url, "https://x.com/alice/status/123456");
}

#[test]
fn transport_and_format_errors() {
    let e = transport_error("HTTP request failed: ", "timed out");
    assert!(matches!(e, XError::Transport { .. }));
    assert_eq!(e.render(), "HTTP request failed: timed out");
    let e = format_error("Failed to parse tweet response: ", "bad json");
    assert_eq!(e.render(), "Failed to parse tweet response: bad json");
}
