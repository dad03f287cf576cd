use rhb::cli::{Cli, HeaderError};
use rhb::config::{Config, ConfigError, FileConfig};

fn empty_cli() -> Cli {
    Cli {
        url: String::new(),
        concurrency: None,
        requests: None,
        time: None,
        method: None,
        header: vec![],
        body: None,
        file: None,
        rate: None,
        http2: false,
        no_tls: false,
        dataset: None,
        dataset_mode: None,
        warmup: None,
        timeout: None,
        retries: None,
        no_redirect: false,
        histogram: false,
        json: false,
        json_file: None,
        csv: None,
        config: None,
        no_progress: false,
    }
}

fn empty_file() -> FileConfig {
    FileConfig {
        url: None,
        concurrency: None,
        requests: None,
        time: None,
        method: None,
        headers: None,
        body: None,
        rate: None,
        http2: None,
        no_tls: None,
        dataset: None,
        dataset_mode: None,
        warmup: None,
        timeout: None,
        retries: None,
        redirect: None,
        histogram: None,
        json: None,
        json_file: None,
        csv: None,
        no_progress: None,
    }
}

#[test]
fn test_url_required() {
    let cli = empty_cli();
    assert!(Config::from_cli(&cli, &None, None).is_err());
}

#[test]
fn test_default_values() {
    let mut cli = empty_cli();
    cli.url = "http://localhost:8080".to_string();
    let cfg = Config::from_cli(&cli, &None, None).unwrap();
    assert_eq!(cfg.concurrency, 50);
    assert_eq!(cfg.method, "GET");
    assert_eq!(cfg.timeout, 30);
    assert_eq!(cfg.dataset_mode, "random");
    assert!(cfg.redirect);
}

#[test]
fn test_cli_override() {
    let mut cli = empty_cli();
    cli.url = "http://localhost:8080".to_string();
    cli.concurrency = Some(128);
    cli.method = Some("POST".to_string());
    let cfg = Config::from_cli(&cli, &None, None).unwrap();
    assert_eq!(cfg.concurrency, 128);
    assert_eq!(cfg.method, "POST");
}

#[test]
fn missing_url_is_its_own_error() {
    let cli = empty_cli();
    assert_eq!(Config::from_cli(&cli, &Some(empty_file()), None).err(), Some(ConfigError::MissingUrl));
}

#[test]
fn file_supplies_what_the_command_line_lacks() {
    let cli = empty_cli();
    let mut file = empty_file();
    file.url = Some("http://file/".to_string());
    file.concurrency = Some(7);
    file.method = Some("PUT".to_string());
    file.redirect = Some(false);
    file.http2 = Some(true);
    file.headers = Some(vec![("A".to_string(), "1".to_string())]);
    let cfg = Config::from_cli(&cli, &Some(file), None).unwrap();
    assert_eq!(cfg.url, "http://file/");
    assert_eq!(cfg.concurrency, 7);
    assert_eq!(cfg.method, "PUT");
    assert!(!cfg.redirect);
    assert!(cfg.http2);
    assert_eq!(cfg.headers, vec![("A".to_string(), "1".to_string())]);
}

#[test]
fn command_line_beats_file() {
    let mut cli = empty_cli();
    cli.url = "http://cli/".to_string();
    cli.concurrency = Some(3);
    cli.warmup = Some(9);
    cli.header = vec!["B: 2".to_string()];
    let mut file = empty_file();
    file.url = Some("http://file/".to_string());
    file.concurrency = Some(7);
    file.warmup = Some(1);
    file.timeout = Some(5);
    file.headers = Some(vec![("A".to_string(), "1".to_string())]);
    let cfg = Config::from_cli(&cli, &Some(file), None).unwrap();
    assert_eq!(cfg.url, "http://cli/");
    assert_eq!(cfg.concurrency, 3);
    assert_eq!(cfg.warmup, 9);
    assert_eq!(cfg.timeout, 5);
    assert_eq!(
        cfg.headers,
        vec![("A".to_string(), "1".to_string()), ("B".to_string(), "2".to_string())]
    );
}

#[test]
fn bad_command_line_header_is_reported() {
    let mut cli = empty_cli();
    cli.url = "http://cli/".to_string();
    cli.header = vec!["ok: 1".to_string(), "broken".to_string(), ": x".to_string()];
    assert_eq!(
        Config::from_cli(&cli, &None, None).err(),
        Some(ConfigError::Header(HeaderError::MissingColon))
    );
}

#[test]
fn body_file_beats_inline_body_and_is_trimmed_at_the_end() {
    let mut cli = empty_cli();
    cli.url = "http://cli/".to_string();
    cli.body = Some("inline".to_string());
    let cfg = Config::from_cli(&cli, &None, Some("  from file \n\n".to_string())).unwrap();
    assert_eq!(cfg.body, Some("  from file".to_string()));
    let cfg = Config::from_cli(&cli, &None, None).unwrap();
    assert_eq!(cfg.body, Some("inline".to_string()));
}

#[test]
fn flags_are_set_by_either_source() {
    let mut cli = empty_cli();
    cli.url = "http://cli/".to_string();
    cli.no_redirect = true;
    cli.json = true;
    let mut file = empty_file();
    file.redirect = Some(true);
    file.histogram = Some(true);
    file.no_progress = Some(false);
    let cfg = Config::from_cli(&cli, &Some(file), None).unwrap();
    assert!(!cfg.redirect);
    assert!(cfg.json);
    assert!(cfg.histogram);
    assert!(!cfg.no_progress);
}
