//! The request handler: what a request is answered with, in which order the checks
//! run, and what is handed on once a request has passed them.
//!
//! The handler never waits. It says what is to be done next (answer, read the
//! counter, or accept), and is called again with what the store said.

use vstd::prelude::*;
use vstd::string::*;
use crate::rate_limit::{key_text, stored_count, text_of, CounterWrite, RateLimitConfig};
use crate::text::{decimal, decimal_text};
use crate::validator::{
    allowlisted, auth_ok, build_target_url, target_url, verify_allowlist, verify_auth,
};

verus! {

/// What the handler is configured with.
#[derive(Clone, Debug)]
pub struct Config {
    /// The shared secret that a request has to bring.
    pub secret: String,
    /// The names of the functions that may be warmed, separated by commas.
    pub allowed_functions: String,
    /// The address under which the backend's functions live.
    pub base_url: String,
    pub limits: RateLimitConfig,
}

/// The two methods that the handler answers.
#[derive(Clone, Copy, Debug, PartialEq, Eq, Structural)]
pub enum Method {
    Options,
    Post,
}

/// What the handler reads of a request.
#[derive(Clone, Debug)]
pub struct IncomingRequest {
    pub method: Method,
    /// The header `X-Ignite-Key`, where the request has it.
    pub auth_key: Option<String>,
    /// The query parameter `fn`, where the request has it.
    pub function_name: Option<String>,
    /// The header `CF-Connecting-IP`, where the request has it.
    pub client_ip: Option<String>,
}

/// An answer to the client.
#[derive(Clone, Copy, Debug, PartialEq, Eq, Structural)]
pub enum Reply {
    Preflight,
    Unauthorized,
    MissingFunction,
    Forbidden,
    TooManyRequests { retry_after_secs: u64 },
    Ignited,
}

/// The warm-up call to the backend: a `POST` to `target_url` with `body`, which
/// carries the secret that the client brought.
#[derive(Clone, Debug, PartialEq, Eq)]
pub struct WarmRequestJob {
    pub target_url: String,
    pub secret: String,
    pub body: String,
}

/// A request that has passed the checks and waits for its counter.
#[derive(Clone, Debug, PartialEq, Eq)]
pub struct Pending {
    pub function_name: String,
    pub key: String,
}

/// What is to be done next for a request.
#[derive(Clone, Debug, PartialEq, Eq)]
pub enum Progress {
    /// Answer with this reply; nothing is written and nothing is sent on.
    Respond(Reply),
    /// Read the counter under the pending request's key, then call `resume`.
    ReadCounter(Pending),
    /// Write the counter where there is one (a failure there changes nothing),
    /// hand the job to a task of its own, and answer `Reply::Ignited` at once.
    Accept { write: Option<CounterWrite>, job: Option<WarmRequestJob> },
}

/// The text of a JSON object with the one member `name`, a boolean, as
/// `serde_json::to_string` writes it; `None` where it fails.
pub uninterp spec fn flag_object_json(name: Seq<char>, flag: bool) -> Option<Seq<char>>;

/// The text that an optional string holds.
pub open spec fn view_of(s: Option<String>) -> Option<Seq<char>> {
    match s {
        Some(t) => Some(t@),
        None => None,
    }
}

/// The texts of a list of pairs of strings.
pub open spec fn pairs_view(list: Seq<(String, String)>) -> Seq<(Seq<char>, Seq<char>)> {
    Seq::new(list.len(), |i: int| (list[i].0@, list[i].1@))
}

/// The key that a request brought; the empty key where it brought none.
pub open spec fn key_of(request: &IncomingRequest) -> Seq<char> {
    match request.auth_key {
        Some(k) => k@,
        None => Seq::<char>::empty(),
    }
}

/// Who a request comes from: the forwarded address, or `unknown`.
pub open spec fn client_of(request: &IncomingRequest) -> Seq<char> {
    match request.client_ip {
        Some(ip) => ip@,
        None => "unknown"@,
    }
}

/// The first check that a `POST` fails, as the answer it gets: the secret, then
/// the presence of a function name, then the allowlist. `None` where it passes
/// all three.
pub open spec fn rejection(request: &IncomingRequest, config: &Config) -> Option<Reply> {
    if !auth_ok(key_of(request), config.secret@) {
        Some(Reply::Unauthorized)
    } else if request.function_name is None {
        Some(Reply::MissingFunction)
    } else if !allowlisted(request.function_name->0@, config.allowed_functions@) {
        Some(Reply::Forbidden)
    } else {
        None
    }
}

/// Whether `job` is the warm-up call for `function_name` with the body `body`:
/// there is one exactly where there is a body.
pub open spec fn is_warm_job(
    job: Option<WarmRequestJob>,
    config: &Config,
    function_name: Seq<char>,
    body: Option<Seq<char>>,
) -> bool {
    match body {
        Some(b) => job is Some && job->0.target_url@ == target_url(
            config.base_url@,
            function_name,
        ) && job->0.secret@ == config.secret@ && job->0.body@ == b,
        None => job is None,
    }
}

impl Reply {
    /// The HTTP status of the reply.
    pub open spec fn status_code(self) -> u16 {
        match self {
            Reply::Preflight => 200,
            Reply::Unauthorized => 401,
            Reply::MissingFunction => 400,
            Reply::Forbidden => 403,
            Reply::TooManyRequests { .. } => 429,
            Reply::Ignited => 200,
        }
    }

    /// The body of the reply.
    pub open spec fn body_text(self) -> Seq<char> {
        match self {
            Reply::Preflight => ""@,
            Reply::Unauthorized => "Unauthorized"@,
            Reply::MissingFunction => "Missing function parameter"@,
            Reply::Forbidden => "Forbidden"@,
            Reply::TooManyRequests { .. } => "Too Many Requests"@,
            Reply::Ignited => "Ignited"@,
        }
    }

    /// The headers of the reply, as pairs of name and value. Every reply lets
    /// any origin read it; the preflight reply also lists the methods and the
    /// headers that a request may use; a refusal over the limit also says after
    /// how many seconds to come back.
    pub open spec fn header_texts(self) -> Seq<(Seq<char>, Seq<char>)> {
        let origin = seq![("Access-Control-Allow-Origin"@, "*"@)];
        match self {
            Reply::Preflight => origin + seq![
                ("Access-Control-Allow-Methods"@, "POST, OPTIONS"@),
                ("Access-Control-Allow-Headers"@, "Content-Type, X-Ignite-Key"@),
            ],
            Reply::TooManyRequests { retry_after_secs } => origin + seq![
                ("Retry-After"@, decimal(retry_after_secs as nat)),
            ],
            _ => origin,
        }
    }

    /// The HTTP status of the reply.
    pub fn status(&self) -> (code: u16)
        ensures
            code == self.status_code(),
    {
        match self {
            Reply::Preflight => 200,
            Reply::Unauthorized => 401,
            Reply::MissingFunction => 400,
            Reply::Forbidden => 403,
            Reply::TooManyRequests { .. } => 429,
            Reply::Ignited => 200,
        }
    }

    /// The body of the reply.
    pub fn body(&self) -> (text: &'static str)
        ensures
            text@ == self.body_text(),
    {
        match self {
            Reply::Preflight => "",
            Reply::Unauthorized => "Unauthorized",
            Reply::MissingFunction => "Missing function parameter",
            Reply::Forbidden => "Forbidden",
            Reply::TooManyRequests { .. } => "Too Many Requests",
            Reply::Ignited => "Ignited",
        }
    }

    /// The headers of the reply, as pairs of name and value.
    pub fn headers(&self) -> (list: Vec<(String, String)>)
        ensures
            pairs_view(list@) == self.header_texts(),
    {
        let mut list: Vec<(String, String)> = Vec::new();
        list.push((String::from_str("Access-Control-Allow-Origin"), String::from_str("*")));
        match self {
            Reply::Preflight => {
                list.push(
                    (
                        String::from_str("Access-Control-Allow-Methods"),
                        String::from_str("POST, OPTIONS"),
                    ),
                );
                list.push(
                    (
                        String::from_str("Access-Control-Allow-Headers"),
                        String::from_str("Content-Type, X-Ignite-Key"),
                    ),
                );
            },
            Reply::TooManyRequests { retry_after_secs } => {
                list.push((String::from_str("Retry-After"), decimal_text(*retry_after_secs)));
            },
            _ => {},
        }
        assert(pairs_view(list@) =~= self.header_texts());
        list
    }

    /// The value of `Retry-After` in seconds, which a reply to a client over
    /// its limit carries and no other.
    pub fn retry_after(&self) -> (secs: Option<u64>)
        ensures
            secs == match *self {
                Reply::TooManyRequests { retry_after_secs } => Some(retry_after_secs),
                _ => None::<u64>,
            },
    {
        match self {
            Reply::TooManyRequests { retry_after_secs } => Some(*retry_after_secs),
            _ => None,
        }
    }
}

impl WarmRequestJob {
    /// The method of the call.
    pub fn method(&self) -> (name: &'static str)
        ensures
            name@ == "POST"@,
    {
        "POST"
    }

    /// The headers of the call, as pairs of name and value: the content type,
    /// the mark of a warm-up, and the secret.
    pub fn headers(&self) -> (list: Vec<(String, String)>)
        ensures
            pairs_view(list@) == seq![
                ("Content-Type"@, "application/json"@),
                ("X-Ignite-Warm"@, "true"@),
                ("X-Ignite-Key"@, self.secret@),
            ],
    {
        let mut list: Vec<(String, String)> = Vec::new();
        list.push((String::from_str("Content-Type"), String::from_str("application/json")));
        list.push((String::from_str("X-Ignite-Warm"), String::from_str("true")));
        list.push((String::from_str("X-Ignite-Key"), self.secret.clone()));
        assert(pairs_view(list@) =~= seq![
            ("Content-Type"@, "application/json"@),
            ("X-Ignite-Warm"@, "true"@),
            ("X-Ignite-Key"@, self.secret@),
        ]);
        list
    }
}

/// Calls `serde_json::to_string` on a `serde_json::Value::Object` whose one
/// member is `name` with the boolean `flag`. The contract says only that the
/// text, or the failure, is the one that this name and this flag always give.
#[verifier::external_body]
fn encode_flag_object(name: &str, flag: bool) -> (text: Option<String>)
    ensures
        view_of(text) == flag_object_json(name@, flag),
{
    let mut members = serde_json::Map::new();
    members.insert(name.to_string(), serde_json::Value::Bool(flag));
    serde_json::to_string(&serde_json::Value::Object(members)).ok()
}

/// The warm-up call for `function_name` with `body`; none where there is no
/// body to send.
pub fn job_with_body(
    config: &Config,
    function_name: &str,
    body: Option<String>,
) -> (job: Option<WarmRequestJob>)
    ensures
        is_warm_job(job, config, function_name@, view_of(body)),
{
    match body {
        Some(text) => Some(
            WarmRequestJob {
                target_url: build_target_url(config.base_url.as_str(), function_name),
                secret: config.secret.clone(),
                body: text,
            },
        ),
        None => None,
    }
}

/// The warm-up call for `function_name`: its body is the JSON object whose one
/// member `__ignite` is true.
pub fn warm_job(config: &Config, function_name: &str) -> (job: Option<WarmRequestJob>)
    ensures
        is_warm_job(job, config, function_name@, flag_object_json("__ignite"@, true)),
{
    let body = encode_flag_object("__ignite", true);
    job_with_body(config, function_name, body)
}

/// Takes a request in. A preflight is answered at once. A `POST` is held to
/// the secret, the function name and the allowlist, in that order, and the
/// first failure is the answer; the counter is not touched then. A request that
/// passes waits for its counter at `now_secs`, or, where there is no store, is
/// accepted as it is.
pub fn begin(
    request: &IncomingRequest,
    config: &Config,
    store_available: bool,
    now_secs: u64,
) -> (progress: Progress)
    requires
        config.limits.wf(),
    ensures
        request.method == Method::Options ==> progress == Progress::Respond(Reply::Preflight),
        request.method == Method::Post ==> match rejection(request, config) {
            Some(reply) => progress == Progress::Respond(reply),
            None => if store_available {
                &&& progress is ReadCounter
                &&& progress->ReadCounter_0.function_name@ == request.function_name->0@
                &&& progress->ReadCounter_0.key@ == key_text(
                    client_of(request),
                    config.limits.window_index(now_secs),
                )
            } else {
                &&& progress is Accept
                &&& progress->write is None
                &&& is_warm_job(
                    progress->job,
                    config,
                    request.function_name->0@,
                    flag_object_json("__ignite"@, true),
                )
            },
        },
{
    if let Method::Options = request.method {
        return Progress::Respond(Reply::Preflight);
    }
    let auth_key: &str = match &request.auth_key {
        Some(k) => k.as_str(),
        None => "",
    };
    proof {
        reveal_strlit("");
        assert(""@ =~= Seq::<char>::empty());
    }
    if !verify_auth(auth_key, config.secret.as_str()) {
        return Progress::Respond(Reply::Unauthorized);
    }
    let function_name: &str = match &request.function_name {
        Some(name) => name.as_str(),
        None => {
            return Progress::Respond(Reply::MissingFunction);
        },
    };
    if !verify_allowlist(function_name, config.allowed_functions.as_str()) {
        return Progress::Respond(Reply::Forbidden);
    }
    if store_available {
        let client: &str = match &request.client_ip {
            Some(ip) => ip.as_str(),
            None => "unknown",
        };
        let key = config.limits.make_key(client, now_secs);
        Progress::ReadCounter(Pending { function_name: String::from_str(function_name), key })
    } else {
        Progress::Accept { write: None, job: warm_job(config, function_name) }
    }
}

/// Goes on with a request once the store has said what its counter holds
/// (`None` where the key is missing or could not be read). At the limit the
/// answer is `TooManyRequests` with the window's length, and nothing is written
/// or sent on. Under it the request is accepted, and the count is to be written
/// back one higher, to expire after two windows.
pub fn resume(pending: &Pending, stored: Option<&str>, config: &Config) -> (progress: Progress)
    requires
        config.limits.wf(),
    ensures
        stored_count(text_of(stored)) >= config.limits.max_per_window ==> progress
            == Progress::Respond(
            Reply::TooManyRequests { retry_after_secs: config.limits.window_secs },
        ),
        stored_count(text_of(stored)) < config.limits.max_per_window ==> {
            &&& progress is Accept
            &&& progress->write is Some
            &&& progress->write->0.key@ == pending.key@
            &&& progress->write->0.value@ == decimal(stored_count(text_of(stored)) as nat + 1)
            &&& progress->write->0.ttl_secs == 2 * config.limits.window_secs
            &&& is_warm_job(
                progress->job,
                config,
                pending.function_name@,
                flag_object_json("__ignite"@, true),
            )
        },
{
    let (decision, write) = config.limits.check_and_increment(pending.key.as_str(), stored);
    if decision.allowed {
        Progress::Accept { write, job: warm_job(config, pending.function_name.as_str()) }
    } else {
        Progress::Respond(Reply::TooManyRequests { retry_after_secs: decision.retry_after_secs })
    }
}

} // verus!
