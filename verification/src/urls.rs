//! The provider-facing texts of the flow: the authorization URL the browser
//! is sent to, and the body of the token-endpoint request.
use vstd::prelude::*;

use crate::chars::{append_str, str_to_chars, string_from_chars};
use crate::encoding::{enc, percent_encode_into};
use crate::query::{find_char, find_in_range, lemma_find_char, lemma_find_char_unique};

verus! {

/// Client configuration for one attempt, immutable for its duration.
pub struct ClientConfig {
    pub client_id: String,
    pub auth_url: String,
    pub token_url: String,
    pub redirect_uri: String,
}

/// What parsing a text as a URL yields: nothing, a URL without a query, or a
/// URL with its serialised query component.
pub enum UrlQuery {
    Invalid,
    NoQuery,
    Query(String),
}

/// The query component a text carries as a URL: the outer option is whether
/// it parses at all, the inner whether the URL has a query component.
pub uninterp spec fn url_query_of(s: Seq<char>) -> Option<Option<Seq<char>>>;

/// Relies on url::Url::parse and url::Url::query: `parse` accepts exactly the
/// absolute URLs, and `query` hands back the serialised query component of
/// the parsed URL when there is one.
#[verifier::external_body]
pub fn parse_url_query(raw: &str) -> (r: UrlQuery)
    ensures
        match r {
            UrlQuery::Invalid => url_query_of(raw@) is None,
            UrlQuery::NoQuery => url_query_of(raw@) == Some(None::<Seq<char>>),
            UrlQuery::Query(q) => url_query_of(raw@) == Some(Some(q@)),
        },
{
    match url::Url::parse(raw) {
        Ok(u) => match u.query() {
            Some(q) => UrlQuery::Query(q.to_string()),
            None => UrlQuery::NoQuery,
        },
        Err(_) => UrlQuery::Invalid,
    }
}

/// The character that joins the endpoint to the added query: `?` normally,
/// `&` when the endpoint already carries a query of its own.
pub open spec fn join_char(endpoint: Seq<char>) -> char {
    if find_char(endpoint, '?') < 0 {
        '?'
    } else {
        '&'
    }
}

/// The authorization URL: the endpoint followed by the OAuth 2.0
/// authorization-request parameters, each value percent-encoded.
pub open spec fn auth_url_chars(
    endpoint: Seq<char>,
    client_id: Seq<char>,
    redirect_uri: Seq<char>,
    scope: Seq<char>,
    state: Seq<char>,
    challenge: Seq<char>,
) -> Seq<char> {
    endpoint + seq![join_char(endpoint)] + "response_type=code&client_id="@ + enc(client_id)
        + "&redirect_uri="@ + enc(redirect_uri) + "&scope="@ + enc(scope) + "&state="@ + enc(state)
        + "&code_challenge="@ + enc(challenge) + "&code_challenge_method=S256"@
}

/// The token-endpoint request body: the authorization-code grant parameters,
/// each value percent-encoded.
pub open spec fn token_request_chars(
    client_id: Seq<char>,
    redirect_uri: Seq<char>,
    code: Seq<char>,
    verifier: Seq<char>,
) -> Seq<char> {
    "grant_type=authorization_code&code="@ + enc(code) + "&redirect_uri="@ + enc(redirect_uri)
        + "&client_id="@ + enc(client_id) + "&code_verifier="@ + enc(verifier)
}

fn append_encoded(out: &mut Vec<char>, s: &str)
    ensures
        final(out)@ == old(out)@ + enc(s@),
{
    let v = str_to_chars(s);
    percent_encode_into(&v, out);
}

/// Builds the authorization URL for one attempt. Fails exactly when the
/// configured authorization endpoint is not a well-formed URL.
pub fn build_authorize_url(cfg: &ClientConfig, state: &str, challenge: &str, scope: &str) -> (r:
    Option<String>)
    ensures
        match r {
            Some(u) => url_query_of(cfg.auth_url@) is Some && u@ == auth_url_chars(
                cfg.auth_url@,
                cfg.client_id@,
                cfg.redirect_uri@,
                scope@,
                state@,
                challenge@,
            ),
            None => url_query_of(cfg.auth_url@) is None,
        },
{
    match parse_url_query(cfg.auth_url.as_str()) {
        UrlQuery::Invalid => None,
        _ => {
            let endpoint = str_to_chars(cfg.auth_url.as_str());
            let mut out: Vec<char> = Vec::new();
            append_str(&mut out, cfg.auth_url.as_str());
            let q = find_in_range(&endpoint, 0, endpoint.len(), '?');
            proof {
                match q {
                    Some(k) => {
                        lemma_find_char_unique(endpoint@, '?', k as int);
                    },
                    None => {
                        lemma_find_char(endpoint@, '?');
                    },
                }
            }
            match q {
                Some(_) => out.push('&'),
                None => out.push('?'),
            }
            append_str(&mut out, "response_type=code&client_id=");
            append_encoded(&mut out, cfg.client_id.as_str());
            append_str(&mut out, "&redirect_uri=");
            append_encoded(&mut out, cfg.redirect_uri.as_str());
            append_str(&mut out, "&scope=");
            append_encoded(&mut out, scope);
            append_str(&mut out, "&state=");
            append_encoded(&mut out, state);
            append_str(&mut out, "&code_challenge=");
            append_encoded(&mut out, challenge);
            append_str(&mut out, "&code_challenge_method=S256");
            proof {
                assert(out@ =~= auth_url_chars(
                    cfg.auth_url@,
                    cfg.client_id@,
                    cfg.redirect_uri@,
                    scope@,
                    state@,
                    challenge@,
                ));
            }
            Some(string_from_chars(out))
        },
    }
}

/// Builds the token-endpoint request body for an authorization code.
pub fn build_token_request(cfg: &ClientConfig, code: &str, verifier: &str) -> (r: String)
    ensures
        r@ == token_request_chars(cfg.client_id@, cfg.redirect_uri@, code@, verifier@),
{
    let mut out: Vec<char> = Vec::new();
    append_str(&mut out, "grant_type=authorization_code&code=");
    append_encoded(&mut out, code);
    append_str(&mut out, "&redirect_uri=");
    append_encoded(&mut out, cfg.redirect_uri.as_str());
    append_str(&mut out, "&client_id=");
    append_encoded(&mut out, cfg.client_id.as_str());
    append_str(&mut out, "&code_verifier=");
    append_encoded(&mut out, verifier);
    proof {
        assert(out@ =~= token_request_chars(cfg.client_id@, cfg.redirect_uri@, code@, verifier@));
    }
    string_from_chars(out)
}

} // verus!
