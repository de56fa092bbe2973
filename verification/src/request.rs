use crate::config::{BenchConfig, Method};
use crate::errors::BurlError;
use vstd::prelude::*;

verus! {

use vstd::string::StringExecFns;

/// The body a request is sent with: none, a raw payload, or a GraphQL
/// query to be wrapped as the JSON document `{"query": ...}`.
pub enum BodySpec {
    Empty,
    Raw(String),
    GqlQuery(String),
}

/// The assembled request: everything the HTTP client needs to build one
/// cloneable request from the specification.
pub struct RequestPlan {
    pub method: Method,
    pub url: String,
    pub body: BodySpec,
    pub bearer_token: Option<String>,
    /// The headers to add, in order; the keep-alive header always comes
    /// last.
    pub headers: Vec<(String, String)>,
    /// A POST without configured headers deserves a warning.
    pub warn_post_without_headers: bool,
    pub disable_certificate_validation: bool,
}

/// Assembles the request plan from the specification. A POST needs a
/// payload: with neither an inline JSON payload nor a GraphQL query the
/// specification is rejected, and with both the payload wins. The bearer
/// token and the configured headers are carried over in order, and the
/// keep-alive header is always appended last.
pub fn assemble_request(config: &BenchConfig) -> (r: Result<RequestPlan, BurlError>)
    requires
        config.json_payload is Some || config.json_payload_ref is None,
    ensures
        r is Err <==> (config.method == Method::Post && config.json_payload is None
            && config.gql_query is None),
        r matches Err(e) ==> e is InvalidConfig,
        r matches Ok(p) ==> {
            &&& p.method == config.method
            &&& p.url@ == config.url@
            &&& (config.method == Method::Post ==> match config.json_payload {
                Some(body) => p.body matches BodySpec::Raw(b) && b@ == body@,
                None => match config.gql_query {
                    Some(query) => p.body matches BodySpec::GqlQuery(q) && q@ == query@,
                    None => false,
                },
            })
            &&& (config.method != Method::Post ==> p.body is Empty)
            &&& (match config.bearer_token {
                Some(token) => p.bearer_token matches Some(t) && t@ == token@,
                None => p.bearer_token is None,
            })
            &&& (match config.headers {
                Some(headers) => {
                    &&& p.headers@.len() == headers@.len() + 1
                    &&& forall|i: int|
                        0 <= i < headers@.len() ==> (#[trigger] p.headers@[i]).0@
                            == headers@[i].0@ && p.headers@[i].1@ == headers@[i].1@
                },
                None => p.headers@.len() == 1,
            })
            &&& p.headers@.last().0@ == "Connection"@
            &&& p.headers@.last().1@ == "keep-alive"@
            &&& p.warn_post_without_headers == (config.method == Method::Post
                && config.headers is None)
            &&& p.disable_certificate_validation == (config.disable_certificate_validation
                matches Some(true))
        },
{
    let body = match config.method {
        Method::Post => {
            match config.json_payload() {
                Some(json) => BodySpec::Raw(json),
                None => match &config.gql_query {
                    Some(query) => BodySpec::GqlQuery(query.clone()),
                    None => {
                        return Err(
                            BurlError::InvalidConfig {
                                issue: String::from_str(
                                    "expected either `json_payload` or `gql_query` in the config",
                                ),
                            },
                        );
                    },
                },
            }
        },
        _ => BodySpec::Empty,
    };
    let bearer_token = match &config.bearer_token {
        Some(token) => Some(token.clone()),
        None => None,
    };
    let mut headers: Vec<(String, String)> = Vec::new();
    let mut warn_post_without_headers = false;
    match &config.headers {
        Some(configured) => {
            let mut i: usize = 0;
            let n = configured.len();
            while i < n
                invariant
                    i <= n,
                    n == configured@.len(),
                    headers@.len() == i,
                    forall|k: int|
                        0 <= k < i ==> (#[trigger] headers@[k]).0@ == configured@[k].0@
                            && headers@[k].1@ == configured@[k].1@,
                decreases n - i,
            {
                let pair = &configured[i];
                headers.push((pair.0.clone(), pair.1.clone()));
                i = i + 1;
            }
        },
        None => {
            if config.method == Method::Post {
                warn_post_without_headers = true;
            }
        },
    }
    headers.push((String::from_str("Connection"), String::from_str("keep-alive")));
    let disable_certificate_validation = match &config.disable_certificate_validation {
        Some(flag) => *flag,
        None => false,
    };
    Ok(
        RequestPlan {
            method: config.method,
            url: config.url.clone(),
            body,
            bearer_token,
            headers,
            warn_post_without_headers,
            disable_certificate_validation,
        },
    )
}

} // verus!
