use auth_flow::validate::{validate, ValidationError};

#[test]
fn accepts_matching_state() {
    let r = validate(
        "http://localhost:45000/callback?code=abc123&state=token123",
        "token123",
    );
    let cb = r.expect("a matching callback must validate");
    assert_eq!(cb.code, "abc123");
    assert_eq!(cb.state, "token123");
}

#[test]
fn rejects_state_prefix() {
    let r = validate(
        "http://localhost:45000/callback?code=abc123&state=token12",
        "token123",
    );
    assert_eq!(r.unwrap_err(), ValidationError::CsrfMismatch);
}

#[test]
fn rejects_state_substring() {
    let r = validate(
        "http://localhost:45000/callback?code=abc123&state=oken12",
        "token123",
    );
    assert_eq!(r.unwrap_err(), ValidationError::CsrfMismatch);
}

#[test]
fn rejects_state_superstring() {
    let r = validate(
        "http://localhost:45000/callback?code=abc123&state=token1234",
        "token123",
    );
    assert_eq!(r.unwrap_err(), ValidationError::CsrfMismatch);
}

#[test]
fn rejects_empty_state() {
    let r = validate(
        "http://localhost:45000/callback?code=abc123&state=",
        "token123",
    );
    assert_eq!(r.unwrap_err(), ValidationError::CsrfMismatch);
}

#[test]
fn rejects_no_query() {
    let r = validate("http://localhost:45000/callback", "token123");
    assert_eq!(r.unwrap_err(), ValidationError::MalformedCallback);
}

#[test]
fn rejects_unparsable_url() {
    let r = validate("not a url at all", "token123");
    assert_eq!(r.unwrap_err(), ValidationError::MalformedCallback);
}

#[test]
fn rejects_missing_code() {
    let r = validate(
        "http://localhost:45000/callback?state=token123",
        "token123",
    );
    assert_eq!(r.unwrap_err(), ValidationError::MalformedCallback);
}

#[test]
fn rejects_missing_state() {
    let r = validate("http://localhost:45000/callback?code=abc123", "token123");
    assert_eq!(r.unwrap_err(), ValidationError::MalformedCallback);
}

#[test]
fn rejects_repeated_code() {
    let r = validate(
        "http://localhost:45000/callback?code=a&code=b&state=token123",
        "token123",
    );
    assert_eq!(r.unwrap_err(), ValidationError::MalformedCallback);
}

#[test]
fn rejects_repeated_state() {
    let r = validate(
        "http://localhost:45000/callback?code=a&state=token123&state=evil",
        "token123",
    );
    assert_eq!(r.unwrap_err(), ValidationError::MalformedCallback);
}

#[test]
fn decodes_percent_and_plus_in_code() {
    let r = validate(
        "http://localhost:45000/callback?code=a%20b+c&state=token123",
        "token123",
    );
    let cb = r.expect("percent and plus decode to spaces");
    assert_eq!(cb.code, "a b c");
}

#[test]
fn rejects_bad_percent_escape() {
    let r = validate(
        "http://localhost:45000/callback?code=a%zzb&state=token123",
        "token123",
    );
    assert_eq!(r.unwrap_err(), ValidationError::MalformedCallback);
}

#[test]
fn rejects_nonprintable_escape() {
    let r = validate(
        "http://localhost:45000/callback?code=%19&state=token123",
        "token123",
    );
    assert_eq!(r.unwrap_err(), ValidationError::MalformedCallback);
}

#[test]
fn ignores_extra_parameters() {
    let r = validate(
        "http://localhost:45000/callback?session=xyz&code=abc123&state=token123&foo=bar",
        "token123",
    );
    let cb = r.expect("extra parameters are ignored");
    assert_eq!(cb.code, "abc123");
}

#[test]
fn decodes_percent_encoded_state_before_comparing() {
    let r = validate(
        "http://localhost:45000/callback?code=abc&state=to%20ken",
        "to ken",
    );
    let cb = r.expect("the decoded state matches the expected token");
    assert_eq!(cb.state, "to ken");
}

#[test]
fn rejects_empty_query() {
    let r = validate("http://localhost:45000/callback?", "token123");
    assert_eq!(r.unwrap_err(), ValidationError::MalformedCallback);
}

#[test]
fn decodes_plus_as_space_in_state() {
    let r = validate(
        "http://localhost:45000/callback?code=abc&state=to+ken",
        "to ken",
    );
    assert_eq!(r.unwrap().state, "to ken");
}
