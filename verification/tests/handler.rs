use std::collections::HashMap;

use ignite_proxy::handler::{
    begin, job_with_body, resume, warm_job, Config, IncomingRequest, Method, Pending, Progress,
    Reply, WarmRequestJob,
};
use ignite_proxy::rate_limit::{CounterWrite, RateLimitConfig};

fn config() -> Config {
    Config {
        secret: "my-secret".to_string(),
        allowed_functions: "createProject, processPayment".to_string(),
        base_url: "https://backend.example/".to_string(),
        limits: RateLimitConfig::default(),
    }
}

fn post(key: Option<&str>, name: Option<&str>, ip: Option<&str>) -> IncomingRequest {
    IncomingRequest {
        method: Method::Post,
        auth_key: key.map(String::from),
        function_name: name.map(String::from),
        client_ip: ip.map(String::from),
    }
}

fn ignite_job(url: &str) -> WarmRequestJob {
    WarmRequestJob {
        target_url: url.to_string(),
        secret: "my-secret".to_string(),
        body: "{\"__ignite\":true}".to_string(),
    }
}

/// Runs one request against a store that keeps what it is given.
fn serve(request: &IncomingRequest, store: &mut HashMap<String, String>, now_secs: u64) -> Reply {
    let config = config();
    let mut progress = begin(request, &config, true, now_secs);
    loop {
        match progress {
            Progress::Respond(reply) => return reply,
            Progress::ReadCounter(pending) => {
                let stored = store.get(&pending.key).cloned();
                progress = resume(&pending, stored.as_deref(), &config);
            }
            Progress::Accept { write, job } => {
                if let Some(w) = write {
                    store.insert(w.key, w.value);
                }
                assert!(job.is_some());
                return Reply::Ignited;
            }
        }
    }
}

#[test]
fn preflight_is_answered_at_once() {
    let request = IncomingRequest {
        method: Method::Options,
        auth_key: None,
        function_name: None,
        client_ip: None,
    };
    assert_eq!(begin(&request, &config(), true, 0), Progress::Respond(Reply::Preflight));
    assert_eq!(begin(&request, &config(), false, 0), Progress::Respond(Reply::Preflight));
}

#[test]
fn wrong_or_missing_key_is_unauthorized() {
    let c = config();
    for key in [None, Some(""), Some("wrong"), Some("MY-SECRET")] {
        let request = post(key, Some("createProject"), Some("1.2.3.4"));
        assert_eq!(begin(&request, &c, true, 0), Progress::Respond(Reply::Unauthorized));
    }
    let request = post(Some("wrong"), None, None);
    assert_eq!(begin(&request, &c, true, 0), Progress::Respond(Reply::Unauthorized));
}

#[test]
fn missing_function_is_a_bad_request() {
    let request = post(Some("my-secret"), None, Some("1.2.3.4"));
    assert_eq!(begin(&request, &config(), true, 0), Progress::Respond(Reply::MissingFunction));
}

#[test]
fn disallowed_function_is_forbidden() {
    let c = config();
    for name in ["deleteEverything", "", "create", "createProject "] {
        let request = post(Some("my-secret"), Some(name), Some("1.2.3.4"));
        assert_eq!(begin(&request, &c, true, 0), Progress::Respond(Reply::Forbidden));
    }
}

#[test]
fn passing_request_waits_for_its_counter() {
    let request = post(Some("my-secret"), Some("processPayment"), Some("1.2.3.4"));
    assert_eq!(
        begin(&request, &config(), true, 125),
        Progress::ReadCounter(Pending {
            function_name: "processPayment".to_string(),
            key: "rate:1.2.3.4:2".to_string(),
        })
    );
}

#[test]
fn client_without_address_is_unknown() {
    let request = post(Some("my-secret"), Some("createProject"), None);
    assert_eq!(
        begin(&request, &config(), true, 60),
        Progress::ReadCounter(Pending {
            function_name: "createProject".to_string(),
            key: "rate:unknown:1".to_string(),
        })
    );
}

#[test]
fn without_a_store_the_request_is_accepted_as_it_is() {
    let request = post(Some("my-secret"), Some("createProject"), Some("1.2.3.4"));
    assert_eq!(
        begin(&request, &config(), false, 0),
        Progress::Accept {
            write: None,
            job: Some(ignite_job("https://backend.example/createProject")),
        }
    );
}

#[test]
fn resume_under_the_limit_accepts_and_counts() {
    let pending =
        Pending { function_name: "createProject".to_string(), key: "rate:1.2.3.4:2".to_string() };
    assert_eq!(
        resume(&pending, Some("4"), &config()),
        Progress::Accept {
            write: Some(CounterWrite {
                key: "rate:1.2.3.4:2".to_string(),
                value: "5".to_string(),
                ttl_secs: 120,
            }),
            job: Some(ignite_job("https://backend.example/createProject")),
        }
    );
}

#[test]
fn resume_at_the_limit_refuses() {
    let pending =
        Pending { function_name: "createProject".to_string(), key: "rate:1.2.3.4:2".to_string() };
    assert_eq!(
        resume(&pending, Some("30"), &config()),
        Progress::Respond(Reply::TooManyRequests { retry_after_secs: 60 })
    );
}

#[test]
fn resume_counts_from_zero_on_a_failed_read() {
    let pending = Pending { function_name: "createProject".to_string(), key: "k".to_string() };
    match resume(&pending, None, &config()) {
        Progress::Accept { write: Some(w), .. } => assert_eq!(w.value, "1"),
        other => panic!("{:?}", other),
    }
}

#[test]
fn thirty_first_request_in_a_window_is_refused() {
    let mut store = HashMap::new();
    let request = post(Some("my-secret"), Some("createProject"), Some("1.2.3.4"));
    for n in 1..=29u64 {
        assert_eq!(serve(&request, &mut store, 600 + n), Reply::Ignited);
    }
    let thirtieth = serve(&request, &mut store, 630);
    assert_eq!(thirtieth, Reply::Ignited);
    assert_eq!(thirtieth.status(), 200);
    let next = serve(&request, &mut store, 659);
    assert_eq!(next, Reply::TooManyRequests { retry_after_secs: 60 });
    assert_eq!(next.status(), 429);
    assert_eq!(next.retry_after(), Some(60));
    assert!(next.headers().contains(&("Retry-After".to_string(), "60".to_string())));
    // another client, and the next window, start afresh
    let other = post(Some("my-secret"), Some("createProject"), Some("5.6.7.8"));
    assert_eq!(serve(&other, &mut store, 659), Reply::Ignited);
    assert_eq!(serve(&request, &mut store, 660), Reply::Ignited);
}

#[test]
fn rejected_requests_leave_the_counter_alone() {
    let mut store = HashMap::new();
    let wrong_key = post(Some("wrong"), Some("createProject"), Some("1.2.3.4"));
    let no_name = post(Some("my-secret"), None, Some("1.2.3.4"));
    let not_allowed = post(Some("my-secret"), Some("deleteEverything"), Some("1.2.3.4"));
    assert_eq!(serve(&wrong_key, &mut store, 0).status(), 401);
    assert_eq!(serve(&no_name, &mut store, 0).status(), 400);
    assert_eq!(serve(&not_allowed, &mut store, 0).status(), 403);
    assert!(store.is_empty());
    let good = post(Some("my-secret"), Some("createProject"), Some("1.2.3.4"));
    assert_eq!(serve(&good, &mut store, 0).status(), 200);
    assert_eq!(store.get("rate:1.2.3.4:0").map(String::as_str), Some("1"));
}

#[test]
fn replies_have_their_status_and_body() {
    let cases = [
        (Reply::Preflight, 200, ""),
        (Reply::Unauthorized, 401, "Unauthorized"),
        (Reply::MissingFunction, 400, "Missing function parameter"),
        (Reply::Forbidden, 403, "Forbidden"),
        (Reply::TooManyRequests { retry_after_secs: 60 }, 429, "Too Many Requests"),
        (Reply::Ignited, 200, "Ignited"),
    ];
    for (reply, status, body) in cases {
        assert_eq!(reply.status(), status);
        assert_eq!(reply.body(), body);
    }
}

fn pair(name: &str, value: &str) -> (String, String) {
    (name.to_string(), value.to_string())
}

#[test]
fn every_reply_allows_any_origin() {
    for reply in [Reply::Unauthorized, Reply::MissingFunction, Reply::Forbidden, Reply::Ignited] {
        assert_eq!(reply.headers(), vec![pair("Access-Control-Allow-Origin", "*")]);
    }
}

#[test]
fn preflight_reply_lists_methods_and_headers() {
    assert_eq!(
        Reply::Preflight.headers(),
        vec![
            pair("Access-Control-Allow-Origin", "*"),
            pair("Access-Control-Allow-Methods", "POST, OPTIONS"),
            pair("Access-Control-Allow-Headers", "Content-Type, X-Ignite-Key"),
        ]
    );
}

#[test]
fn refusal_says_when_to_come_back() {
    assert_eq!(
        Reply::TooManyRequests { retry_after_secs: 60 }.headers(),
        vec![pair("Access-Control-Allow-Origin", "*"), pair("Retry-After", "60")]
    );
}

#[test]
fn only_the_refusal_carries_retry_after() {
    assert_eq!(Reply::TooManyRequests { retry_after_secs: 9 }.retry_after(), Some(9));
    assert_eq!(Reply::Ignited.retry_after(), None);
    assert_eq!(Reply::Unauthorized.retry_after(), None);
    assert_eq!(Reply::Preflight.retry_after(), None);
}

#[test]
fn warm_job_carries_the_ignite_body() {
    let job = warm_job(&config(), "processPayment").unwrap();
    assert_eq!(job.target_url, "https://backend.example/processPayment");
    assert_eq!(job.secret, "my-secret");
    assert_eq!(job.body, "{\"__ignite\":true}");
    let parsed: serde_json::Value = serde_json::from_str(&job.body).unwrap();
    assert_eq!(parsed.get("__ignite"), Some(&serde_json::Value::Bool(true)));
}

#[test]
fn warm_job_is_a_post_with_three_headers() {
    let job = warm_job(&config(), "createProject").unwrap();
    assert_eq!(job.method(), "POST");
    assert_eq!(
        job.headers(),
        vec![
            ("Content-Type".to_string(), "application/json".to_string()),
            ("X-Ignite-Warm".to_string(), "true".to_string()),
            ("X-Ignite-Key".to_string(), "my-secret".to_string()),
        ]
    );
}

#[test]
fn job_with_body_takes_the_body_it_is_given() {
    let job = job_with_body(&config(), "createProject", Some("{}".to_string()));
    assert_eq!(
        job,
        Some(WarmRequestJob {
            target_url: "https://backend.example/createProject".to_string(),
            secret: "my-secret".to_string(),
            body: "{}".to_string(),
        })
    );
    assert_eq!(job_with_body(&config(), "createProject", None), None);
}
