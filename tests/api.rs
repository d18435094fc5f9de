use ap_onboard::api::{
    rejection, reply_class, setup_code_url, unexpected_reply, unreachable_service, ApiError,
    ReplyClass, SetupCodeError,
};

#[test]
fn reply_status_classes() {
    assert_eq!(reply_class(200), ReplyClass::Accepted);
    assert_eq!(reply_class(204), ReplyClass::Accepted);
    assert_eq!(reply_class(299), ReplyClass::Accepted);
    assert_eq!(reply_class(404), ReplyClass::Rejected);
    assert_eq!(reply_class(199), ReplyClass::Unexpected);
    assert_eq!(reply_class(300), ReplyClass::Unexpected);
    assert_eq!(reply_class(500), ReplyClass::Unexpected);
}

#[test]
fn rejection_tells_expired_from_invalid() {
    let e = rejection(SetupCodeError { error: "Code expired".to_string(), expired: true });
    assert!(matches!(&e, ApiError::ExpiredCode(m) if m == "Code expired"));
    let e = rejection(SetupCodeError { error: "Unknown code".to_string(), expired: false });
    assert!(matches!(&e, ApiError::InvalidCode(m) if m == "Unknown code"));
    assert_eq!(e.message(), "Unknown code");
}

#[test]
fn other_errors() {
    let e = unexpected_reply("500 Internal Server Error");
    assert_eq!(e.message(), "Unexpected response: 500 Internal Server Error");
    assert!(matches!(unreachable_service(), ApiError::NetworkError(_)));
}

#[test]
fn lookup_url() {
    assert_eq!(setup_code_url("https://x.example", "AB12"), "https://x.example/api/setup-code?code=AB12");
}
