//! The settings under which the Nominal service is used, and how they are checked.
use vstd::prelude::*;
use vstd::string::*;

verus! {

/// How long points are gathered before a request is sent, in milliseconds. Larger batches hold a
/// steady rate over slow round trips.
pub const MAX_REQUEST_DELAY_MS: u64 = 250;

/// How many requests wait to be sent at most.
pub const MAX_BUFFERED_REQUESTS: usize = 16;

/// The service's address where none is given.
pub fn default_url() -> (url: &'static str)
    ensures
        url@ == "https://api.gov.nominal.io/api"@,
{
    "https://api.gov.nominal.io/api"
}

/// The address given, or the service's own.
pub fn url_or_default(url: Option<String>) -> (base: String)
    ensures
        base@ == match url {
            Some(given) => given@,
            None => "https://api.gov.nominal.io/api"@,
        },
{
    match url {
        Some(given) => given,
        None => default_url().to_owned(),
    }
}

/// The settings that the environment gives.
#[derive(Debug)]
pub struct EnvConfig {
    pub token: String,
    pub dataset: String,
    pub base_url: String,
}

/// The error for a variable that is not set.
pub open spec fn missing_text(key: Seq<char>) -> Seq<char> {
    "missing env var "@ + key + " (set it in .env)"@
}

fn missing(key: &str) -> (text: String)
    ensures
        text@ == missing_text(key@),
{
    let mut text = "missing env var ".to_owned();
    text.append(key);
    text.append(" (set it in .env)");
    text
}

impl EnvConfig {
    /// The settings from the values of the variables `NOMINAL_TOKEN`, `NOMINAL_DATASET` and
    /// `NOMINAL_URL`. The first that is not set is the error.
    pub fn from_env(
        token: Option<String>,
        dataset: Option<String>,
        base_url: Option<String>,
    ) -> (env: Result<EnvConfig, String>)
        ensures
            match env {
                Ok(e) => token == Some(e.token) && dataset == Some(e.dataset) && base_url == Some(
                    e.base_url,
                ),
                Err(text) => if token is None {
                    text@ == missing_text("NOMINAL_TOKEN"@)
                } else if dataset is None {
                    text@ == missing_text("NOMINAL_DATASET"@)
                } else {
                    base_url is None && text@ == missing_text("NOMINAL_URL"@)
                },
            },
    {
        match (token, dataset, base_url) {
            (None, _, _) => Err(missing("NOMINAL_TOKEN")),
            (_, None, _) => Err(missing("NOMINAL_DATASET")),
            (_, _, None) => Err(missing("NOMINAL_URL")),
            (Some(token), Some(dataset), Some(base_url)) => Ok(
                EnvConfig { token, dataset, base_url },
            ),
        }
    }
}

/// A lowercase letter.
pub open spec fn is_lower(c: char) -> bool {
    'a' <= c <= 'z'
}

/// A decimal digit.
pub open spec fn is_digit(c: char) -> bool {
    '0' <= c <= '9'
}

/// A letter of either case or a digit.
pub open spec fn is_word(c: char) -> bool {
    is_lower(c) || is_digit(c) || 'A' <= c <= 'Z'
}

/// What a bearer token consists of.
pub open spec fn is_token_char(c: char) -> bool {
    is_word(c) || c == '-' || c == '.' || c == '_' || c == '~' || c == '+' || c == '/'
}

/// A bearer token: one or more token characters, then any number of equals signs.
pub open spec fn is_bearer_token(text: Seq<char>) -> bool {
    exists|end: int|
        #![trigger text.take(end)]
        0 < end <= text.len() && (forall|i: int| 0 <= i < end ==> is_token_char(#[trigger] text[i]))
            && (forall|i: int| end <= i < text.len() ==> #[trigger] text[i] == '=')
}

/// A part of a resource identifier: lowercase letters, digits and hyphens.
pub open spec fn is_part(text: Seq<char>) -> bool {
    forall|i: int|
        0 <= i < text.len() ==> is_lower(#[trigger] text[i]) || is_digit(text[i]) || text[i] == '-'
}

/// The last part of a resource identifier.
pub open spec fn is_locator(text: Seq<char>) -> bool {
    text.len() > 0 && forall|i: int|
        0 <= i < text.len() ==> is_word(#[trigger] text[i]) || text[i] == '_' || text[i] == '-'
            || text[i] == '.'
}

/// The text of a resource identifier with these parts.
pub open spec fn rid_text(
    service: Seq<char>,
    instance: Seq<char>,
    kind: Seq<char>,
    locator: Seq<char>,
) -> Seq<char> {
    "ri."@ + service + "."@ + instance + "."@ + kind + "."@ + locator
}

/// A resource identifier: `ri`, a service, an instance that may be empty, a type and a locator,
/// with dots between them. The service and the type begin with a letter, the instance with a
/// letter or a digit.
pub open spec fn is_rid(text: Seq<char>) -> bool {
    exists|service: Seq<char>, instance: Seq<char>, kind: Seq<char>, locator: Seq<char>|
        text == #[trigger] rid_text(service, instance, kind, locator) && is_part(service) && is_part(
            instance,
        ) && is_part(kind) && is_locator(locator) && service.len() > 0 && is_lower(service[0])
            && kind.len() > 0 && is_lower(kind[0]) && (instance.len() > 0 ==> instance[0] != '-')
}

/// Whether `url::Url::parse` accepts a text.
pub uninterp spec fn is_url(text: Seq<char>) -> bool;

/// `conjure_object::BearerToken::new` accepts a text exactly if it is a bearer token.
#[verifier::external_body]
fn valid_token(text: &str) -> (valid: bool)
    ensures
        valid == is_bearer_token(text@),
{
    conjure_object::BearerToken::new(text).is_ok()
}

/// `conjure_object::ResourceIdentifier::new` accepts a text exactly if it is a resource
/// identifier.
#[verifier::external_body]
fn valid_rid(text: &str) -> (valid: bool)
    ensures
        valid == is_rid(text@),
{
    conjure_object::ResourceIdentifier::new(text).is_ok()
}

/// `url::Url::parse`: whether it accepts a text. What an address looks like is the URL standard's
/// and not stated.
#[verifier::external_body]
fn valid_url(text: &str) -> (valid: bool)
    ensures
        valid == is_url(text@),
{
    url::Url::parse(text).is_ok()
}

/// The error for settings that cannot be used: the first of token, dataset and address that is
/// not valid.
pub open spec fn env_fault(
    token_valid: bool,
    rid_valid: bool,
    url_valid: bool,
    dataset: Seq<char>,
) -> Option<Seq<char>> {
    if !token_valid {
        Some("invalid NOMINAL_TOKEN"@)
    } else if !rid_valid {
        Some("NOMINAL_DATASET is not a valid rid: "@ + dataset)
    } else if !url_valid {
        Some("invalid NOMINAL_URL"@)
    } else {
        None
    }
}

/// Judges settings by what is known of their parts.
pub fn judge_env(
    token_valid: bool,
    rid_valid: bool,
    url_valid: bool,
    dataset: &str,
) -> (checked: Result<(), String>)
    ensures
        match checked {
            Ok(_) => env_fault(token_valid, rid_valid, url_valid, dataset@) is None,
            Err(text) => env_fault(token_valid, rid_valid, url_valid, dataset@) == Some(text@),
        },
{
    if !token_valid {
        return Err("invalid NOMINAL_TOKEN".to_owned());
    }
    if !rid_valid {
        let mut text = "NOMINAL_DATASET is not a valid rid: ".to_owned();
        text.append(dataset);
        return Err(text);
    }
    if !url_valid {
        return Err("invalid NOMINAL_URL".to_owned());
    }
    Ok(())
}

/// The service under settings that can be used.
#[derive(Debug)]
pub struct NominalApi {
    pub token: String,
    pub dataset_rid: String,
    pub base_url: String,
}

impl NominalApi {
    /// The token, the dataset and the address are valid.
    pub open spec fn well_formed(&self) -> bool {
        is_bearer_token(self.token@) && is_rid(self.dataset_rid@) && is_url(self.base_url@)
    }

    /// The service under the settings, if they can be used.
    pub fn new(env: &EnvConfig) -> (api: Result<NominalApi, String>)
        ensures
            match api {
                Ok(api) => {
                    &&& api.well_formed()
                    &&& api.token@ == env.token@
                    &&& api.dataset_rid@ == env.dataset@
                    &&& api.base_url@ == env.base_url@
                },
                Err(text) => env_fault(
                    is_bearer_token(env.token@),
                    is_rid(env.dataset@),
                    is_url(env.base_url@),
                    env.dataset@,
                ) == Some(text@),
            },
    {
        let token_valid: bool = valid_token(env.token.as_str());
        let rid_valid: bool = valid_rid(env.dataset.as_str());
        let url_valid: bool = valid_url(env.base_url.as_str());
        match judge_env(token_valid, rid_valid, url_valid, env.dataset.as_str()) {
            Ok(()) => Ok(
                NominalApi {
                    token: env.token.clone(),
                    dataset_rid: env.dataset.clone(),
                    base_url: env.base_url.clone(),
                },
            ),
            Err(text) => Err(text),
        }
    }
}

/// Checks what a plain stream into a dataset is opened with: first the token, then the dataset.
pub fn check_stream(token: &str, dataset: &str) -> (checked: Result<(), String>)
    ensures
        match checked {
            Ok(_) => is_bearer_token(token@) && is_rid(dataset@),
            Err(text) => if !is_bearer_token(token@) {
                text@ == "invalid token"@
            } else {
                !is_rid(dataset@) && text@ == "invalid dataset RID"@
            },
        },
{
    if !valid_token(token) {
        return Err("invalid token".to_owned());
    }
    if !valid_rid(dataset) {
        return Err("invalid dataset RID".to_owned());
    }
    Ok(())
}

/// The error for settings that a fleet cannot be streamed with: the first of token and dataset that
/// is not valid.
pub open spec fn stream_fault(token_valid: bool, rid_valid: bool) -> Option<Seq<char>> {
    if !token_valid {
        Some("invalid NOMINAL_TOKEN"@)
    } else if !rid_valid {
        Some("NOMINAL_DATASET is not a valid rid"@)
    } else {
        None
    }
}

/// How the stream of a fleet is set up, if its settings can be used.
pub fn build_stream(env: &EnvConfig) -> (options: Result<StreamOptions, String>)
    ensures
        match options {
            Ok(options) => {
                &&& stream_fault(is_bearer_token(env.token@), is_rid(env.dataset@)) is None
                &&& options == fleet_options(env.base_url)
            },
            Err(text) => stream_fault(is_bearer_token(env.token@), is_rid(env.dataset@)) == Some(
                text@,
            ),
        },
{
    if !valid_token(env.token.as_str()) {
        return Err("invalid NOMINAL_TOKEN".to_owned());
    }
    if !valid_rid(env.dataset.as_str()) {
        return Err("NOMINAL_DATASET is not a valid rid".to_owned());
    }
    Ok(StreamOptions::fleet(env.base_url.clone()))
}

/// How a stream into a dataset is set up. What is left out keeps the client's default.
#[derive(Debug)]
pub struct StreamOptions {
    pub base_api_url: Option<String>,
    pub max_request_delay_ms: Option<u64>,
    pub max_buffered_requests: Option<usize>,
    pub request_dispatcher_tasks: Option<usize>,
    pub file_fallback: Option<String>,
}

/// How the stream of a fleet is set up: larger batches and a deeper queue of requests.
pub open spec fn fleet_options(url: String) -> StreamOptions {
    StreamOptions {
        base_api_url: Some(url),
        max_request_delay_ms: Some(MAX_REQUEST_DELAY_MS),
        max_buffered_requests: Some(MAX_BUFFERED_REQUESTS),
        request_dispatcher_tasks: None,
        file_fallback: None,
    }
}

impl StreamOptions {
    /// A plain stream: only the address, where one is given, and a file to fall back to.
    pub fn plain(url: Option<String>, fallback: Option<String>) -> (options: StreamOptions)
        ensures
            options == (StreamOptions {
                base_api_url: url,
                max_request_delay_ms: None,
                max_buffered_requests: None,
                request_dispatcher_tasks: None,
                file_fallback: fallback,
            }),
    {
        StreamOptions {
            base_api_url: url,
            max_request_delay_ms: None,
            max_buffered_requests: None,
            request_dispatcher_tasks: None,
            file_fallback: fallback,
        }
    }

    /// A stream whose requests leave in the order in which they were made: with one dispatcher and
    /// one request at a time.
    pub fn in_order(url: Option<String>) -> (options: StreamOptions)
        ensures
            options == (StreamOptions {
                base_api_url: url,
                max_request_delay_ms: None,
                max_buffered_requests: Some(1),
                request_dispatcher_tasks: Some(1),
                file_fallback: None,
            }),
    {
        StreamOptions {
            base_api_url: url,
            max_request_delay_ms: None,
            max_buffered_requests: Some(1),
            request_dispatcher_tasks: Some(1),
            file_fallback: None,
        }
    }

    /// The stream of a fleet: larger batches and a deeper queue of requests.
    pub fn fleet(url: String) -> (options: StreamOptions)
        ensures
            options == fleet_options(url),
    {
        StreamOptions {
            base_api_url: Some(url),
            max_request_delay_ms: Some(MAX_REQUEST_DELAY_MS),
            max_buffered_requests: Some(MAX_BUFFERED_REQUESTS),
            request_dispatcher_tasks: None,
            file_fallback: None,
        }
    }
}

} // verus!
