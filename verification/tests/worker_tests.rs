use rhb::cli::Cli;
use rhb::client::default_headers;
use rhb::config::Config;
use rhb::dataset::{DataSet, RequestTemplate, SelectMode};
use rhb::stats::Stats;
use rhb::worker::{
    check_stop_condition, error_attempt, limiter_for, plan_request, record_attempt,
    response_attempt, retry_after_error, Dispatch, Dispatcher, RunError,
};

fn config(url: &str, method: &str) -> Config {
    let cli = Cli {
        url: url.to_string(),
        concurrency: None,
        requests: Some(10),
        time: None,
        method: Some(method.to_string()),
        header: vec!["X-A: 1".to_string()],
        body: Some("b".to_string()),
        file: None,
        rate: None,
        http2: false,
        no_tls: false,
        dataset: None,
        dataset_mode: None,
        warmup: None,
        timeout: None,
        retries: None,
        no_redirect: false,
        histogram: false,
        json: false,
        json_file: None,
        csv: None,
        config: None,
        no_progress: false,
    };
    Config::from_cli(&cli, &None, None).unwrap()
}

#[test]
fn stop_condition_is_required() {
    assert_eq!(check_stop_condition(None, None), Err(RunError::NoStopCondition));
    assert_eq!(check_stop_condition(Some(1), None), Ok(()));
    assert_eq!(check_stop_condition(None, Some(1)), Ok(()));
}

#[test]
fn exactly_the_requested_count_after_warmup() {
    let mut d = Dispatcher::new(Some(3), None, 2);
    let mut got = Vec::new();
    while let Some(x) = d.next(0) {
        got.push(x);
    }
    assert_eq!(
        got,
        vec![
            Dispatch { seq: 0, warmup: true },
            Dispatch { seq: 1, warmup: true },
            Dispatch { seq: 2, warmup: false },
            Dispatch { seq: 3, warmup: false },
            Dispatch { seq: 4, warmup: false },
        ]
    );
    assert_eq!(d.measured, 3);
    assert_eq!(d.next(0), None);
}

#[test]
fn deadline_stops_the_run() {
    let mut d = Dispatcher::new(None, Some(2), 0);
    assert_eq!(d.deadline_ns, Some(2_000_000_000));
    assert!(d.next(1_999_999_999).is_some());
    assert_eq!(d.next(2_000_000_000), None);
    let d = Dispatcher::new(None, Some(u64::MAX), 0);
    assert_eq!(d.deadline_ns, Some(u64::MAX));
}

#[test]
fn limiter_only_for_positive_rates() {
    assert!(limiter_for(None).is_none());
    assert!(limiter_for(Some(0)).is_none());
    assert!(!limiter_for(Some(5)).unwrap().is_unlimited());
}

#[test]
fn outcomes_and_retries() {
    assert!(response_attempt(1, 399, 2).success);
    assert!(!response_attempt(1, 400, 2).success);
    assert!(!error_attempt(7).success);
    assert_eq!(error_attempt(7).status, 0);
    assert!(!retry_after_error(0, 0));
    assert!(retry_after_error(0, 2));
    assert!(retry_after_error(1, 2));
    assert!(!retry_after_error(2, 2));
    assert!(retry_after_error(u32::MAX - 1, u32::MAX));
}

#[test]
fn warmup_attempts_are_not_recorded() {
    let mut stats = Stats::new(false).unwrap();
    record_attempt(&mut stats, &response_attempt(5, 200, 9), true, 0, "GET", "u");
    assert_eq!(stats.total(), 0);
    record_attempt(&mut stats, &response_attempt(5, 404, 9), false, 0, "GET", "u");
    record_attempt(&mut stats, &error_attempt(5), false, 0, "GET", "u");
    assert_eq!(stats.total(), 2);
    assert_eq!(stats.failure(), 2);
    assert_eq!(stats.bytes(), 0);
}

#[test]
fn planned_request_from_config() {
    let cfg = config("http://t/", "POST");
    let p = plan_request(&cfg, &None, SelectMode::Random, 0).unwrap();
    assert_eq!(p.url, "http://t/");
    assert_eq!(p.method.as_str(), "POST");
    assert_eq!(p.headers, vec![("X-A".to_string(), "1".to_string())]);
    assert_eq!(p.body, Some("b".to_string()));
    let bad = config("http://t/", "NOT VALID");
    assert!(plan_request(&bad, &None, SelectMode::Random, 0).is_none());
}

#[test]
fn planned_request_from_dataset() {
    let cfg = config("http://t", "GET");
    let ds = DataSet {
        templates: vec![
            RequestTemplate {
                method: "PUT".to_string(),
                path: "/x/{{random.int(6,6)}}".to_string(),
                headers: vec![],
                body: None,
            },
            RequestTemplate {
                method: "GET".to_string(),
                path: "y".to_string(),
                headers: vec![],
                body: Some("{{random.int(1,1)}}".to_string()),
            },
        ],
    };
    let p = plan_request(&cfg, &Some(ds), SelectMode::Sequential, 3).unwrap();
    assert_eq!(p.url, "http://t/y");
    assert_eq!(p.method.as_str(), "GET");
    assert_eq!(p.body, Some("1".to_string()));
}

#[test]
fn invalid_default_headers_are_dropped() {
    let headers = vec![
        ("Good".to_string(), "v".to_string()),
        ("Bad Name".to_string(), "v".to_string()),
        ("X".to_string(), "line\nbreak".to_string()),
        ("".to_string(), "v".to_string()),
        ("Tabbed".to_string(), "a\tb é".to_string()),
    ];
    assert_eq!(
        default_headers(&headers),
        vec![("Good".to_string(), "v".to_string()), ("Tabbed".to_string(), "a\tb é".to_string())]
    );
}
