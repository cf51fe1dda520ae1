//! Transport and session policy behaviour.
use wikidot::client::{
    classify_payload, classify_status, cookie_header, default_cookie, login_params, retry_decision,
    retry_surfaced_index, rpc_params, AjaxClient, AjaxConfig,
};
use wikidot::error::WikidotRespondError;

#[test]
fn default_config_values() {
    let c = AjaxConfig::default();
    assert_eq!(c.attempt_limit, 5);
    assert_eq!(c.retry_interval, 5);
    assert_eq!(c.semaphore_limit, 5);
    assert_eq!(c.request_timeout, 60);
    let client = AjaxClient::new();
    assert!(client.cookies.is_none());
    assert_eq!(client.config.attempt_limit, 5);
}

#[test]
fn retry_exhaustion_makes_exactly_attempt_limit_retries() {
    // Every attempt fails: the surfaced outcome is the last allowed
    // attempt's, after exactly attempt_limit retries.
    let flags = vec![false, false, false, false, false, false, false];
    let (surfaced, calls) = retry_surfaced_index(&flags, 5);
    assert_eq!(surfaced, 5);
    assert_eq!(calls, 6);
    let retries = calls - 1;
    assert_eq!(retries, 5);
}

#[test]
fn retry_stops_at_first_success() {
    let flags = vec![false, false, true, false, false, false];
    let (surfaced, calls) = retry_surfaced_index(&flags, 5);
    assert_eq!(surfaced, 2);
    assert_eq!(calls, 3);
}

#[test]
fn retry_success_on_first_attempt_makes_one_call() {
    let flags = vec![true, false];
    let (surfaced, calls) = retry_surfaced_index(&flags, 1);
    assert_eq!(surfaced, 0);
    assert_eq!(calls, 1);
}

#[test]
fn retry_decision_respects_limit() {
    assert!(retry_decision(0, 5, false));
    assert!(retry_decision(4, 5, false));
    assert!(!retry_decision(5, 5, false));
    assert!(!retry_decision(0, 5, true));
}

#[test]
fn status_classification() {
    assert_eq!(classify_status(408), Err(WikidotRespondError::Status(408)));
    assert_eq!(classify_status(502), Err(WikidotRespondError::Status(502)));
    assert_eq!(classify_status(200), Ok(()));
    assert_eq!(classify_status(404), Ok(()));
}

#[test]
fn payload_classification() {
    assert_eq!(
        classify_payload("try_again", "whatever"),
        Err(WikidotRespondError::TryAgain)
    );
    assert_eq!(classify_payload("ok", ""), Err(WikidotRespondError::Empty));
    assert_eq!(classify_payload("ok", "<div/>"), Ok(()));
}

#[test]
fn cookie_header_overrides_security_token() {
    let pairs = vec![
        ("sess".to_string(), "abc".to_string()),
        ("wikidot_token7".to_string(), "realvalue".to_string()),
    ];
    let header = cookie_header(&pairs);
    assert_eq!(header, "sess=abc; wikidot_token7=123456; ");
}

#[test]
fn anonymous_cookie_is_the_sentinel() {
    assert_eq!(default_cookie(), "wikidot_token7=123456");
}

#[test]
fn rpc_params_prepend_mandatory_fields() {
    let extra = vec![("moduleName".to_string(), "list/ListPagesModule".to_string())];
    let params = rpc_params(&extra);
    assert_eq!(params.len(), 3);
    assert_eq!(params[0], ("callbackIndex".to_string(), "0".to_string()));
    assert_eq!(params[1], ("wikidot_token7".to_string(), "123456".to_string()));
    assert_eq!(params[2].0, "moduleName");
}

#[test]
fn login_params_shape() {
    let p = login_params("user", "pw");
    assert_eq!(p.len(), 4);
    assert_eq!(p[0], ("login".to_string(), "user".to_string()));
    assert_eq!(p[1], ("password".to_string(), "pw".to_string()));
    assert_eq!(p[2], ("action".to_string(), "Login2Action".to_string()));
    assert_eq!(p[3], ("event".to_string(), "login".to_string()));
}

#[test]
fn login_cookies_build_a_session() {
    let pairs = vec![("wikidot_token7".to_string(), "xyz".to_string())];
    let c = AjaxClient::from_login_cookies(&pairs);
    assert_eq!(c.cookies.as_deref(), Some("wikidot_token7=123456; "));
}
