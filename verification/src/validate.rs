//! Callback validation: the security-critical check of a redirect URL's
//! `state` against the attempt's CSRF token, after extracting `code` and
//! `state` from its query string.
use vstd::prelude::*;

use crate::chars::{str_to_chars, string_from_chars};
use crate::query::{chars_eq, extract_param, param_of};
use crate::urls::{parse_url_query, url_query_of, UrlQuery};

verus! {

/// The code and state of one received callback.
#[derive(Debug)]
pub struct CallbackQuery {
    pub code: String,
    pub state: String,
}

#[derive(Clone, Copy, PartialEq, Eq, Debug)]
pub enum ValidationError {
    /// The callback URL does not parse, has no query string, or its query
    /// lacks a clean `code` or `state` parameter.
    MalformedCallback,
    /// The callback's `state` is not exactly the expected CSRF token.
    CsrfMismatch,
}

/// Validation of a callback's query component: both `code` and `state` must
/// be present exactly once and well-formed, and `state` must equal the
/// expected CSRF token exactly.
pub open spec fn validate_query(q: Seq<char>, expected: Seq<char>) -> Result<
    (Seq<char>, Seq<char>),
    ValidationError,
> {
    match (param_of(q, "code"@), param_of(q, "state"@)) {
        (Some(code), Some(state)) => if state == expected {
            Ok((code, state))
        } else {
            Err(ValidationError::CsrfMismatch)
        },
        _ => Err(ValidationError::MalformedCallback),
    }
}

/// Validation of a whole callback URL: it must parse as a URL and carry a
/// query component, which `validate_query` then judges.
pub open spec fn spec_validate(raw: Seq<char>, expected: Seq<char>) -> Result<
    (Seq<char>, Seq<char>),
    ValidationError,
> {
    match url_query_of(raw) {
        Some(Some(q)) => validate_query(q, expected),
        _ => Err(ValidationError::MalformedCallback),
    }
}

/// Validates a raw callback URL against the expected CSRF token, exactly as
/// `spec_validate` describes. The state comparison is decided before the code
/// is used for anything.
pub fn validate(raw_url: &str, expected_csrf: &str) -> (r: Result<CallbackQuery, ValidationError>)
    ensures
        match r {
            Ok(cb) => spec_validate(raw_url@, expected_csrf@) == Ok::<_, ValidationError>(
                (cb.code@, cb.state@),
            ) && cb.state@ == expected_csrf@,
            Err(e) => spec_validate(raw_url@, expected_csrf@) == Err::<
                (Seq<char>, Seq<char>),
                ValidationError,
            >(e),
        },
{
    match parse_url_query(raw_url) {
        UrlQuery::Query(q) => {
            let qc = str_to_chars(q.as_str());
            let code_key = str_to_chars("code");
            let state_key = str_to_chars("state");
            let code = extract_param(&qc, &code_key);
            let state = extract_param(&qc, &state_key);
            match (code, state) {
                (Some(c), Some(s)) => {
                    let expected = str_to_chars(expected_csrf);
                    if chars_eq(&s, &expected) {
                        Ok(
                            CallbackQuery {
                                code: string_from_chars(c),
                                state: string_from_chars(s),
                            },
                        )
                    } else {
                        Err(ValidationError::CsrfMismatch)
                    }
                },
                _ => Err(ValidationError::MalformedCallback),
            }
        },
        _ => Err(ValidationError::MalformedCallback),
    }
}

/// Law: any callback whose `state` differs from the attempt's CSRF token in
/// any way — a substring, a prefix, or any other unequal string — is rejected
/// as a CSRF mismatch.
pub proof fn lemma_rejects_state_mismatch(raw: Seq<char>, expected: Seq<char>)
    requires
        url_query_of(raw) matches Some(Some(q)) && param_of(q, "code"@) is Some && (param_of(
            q,
            "state"@,
        ) matches Some(state) && state != expected),
    ensures
        spec_validate(raw, expected) == Err::<(Seq<char>, Seq<char>), ValidationError>(
            ValidationError::CsrfMismatch,
        ),
{
}

/// Law: a callback URL that does not parse, has no query string, or whose
/// query lacks a clean `code` or `state` parameter, is rejected as malformed.
pub proof fn lemma_rejects_malformed(raw: Seq<char>, expected: Seq<char>)
    requires
        url_query_of(raw) is None || url_query_of(raw) == Some(None::<Seq<char>>) || (url_query_of(
            raw,
        ) matches Some(Some(q)) && (param_of(q, "code"@) is None || param_of(q, "state"@) is None)),
    ensures
        spec_validate(raw, expected) == Err::<(Seq<char>, Seq<char>), ValidationError>(
            ValidationError::MalformedCallback,
        ),
{
}

} // verus!
