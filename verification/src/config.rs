//! The run configuration and its merge: command line over configuration
//! file over built-in defaults.
use vstd::prelude::*;
use crate::cli::{Cli, HeaderError, header_parse, parse_header};
use crate::text::{CharSet, chars_of, skip_end, string_of, strip_end};

verus! {

/// The settings read from a YAML configuration file; every one is optional.
///
/// Headers are kept as (name, value) pairs in the order the file gave them.
#[derive(Debug, Clone)]
pub struct FileConfig {
    pub url: Option<String>,
    pub concurrency: Option<usize>,
    pub requests: Option<u64>,
    pub time: Option<u64>,
    pub method: Option<String>,
    pub headers: Option<Vec<(String, String)>>,
    pub body: Option<String>,
    pub rate: Option<u64>,
    pub http2: Option<bool>,
    pub no_tls: Option<bool>,
    pub dataset: Option<String>,
    pub dataset_mode: Option<String>,
    pub warmup: Option<u64>,
    pub timeout: Option<u64>,
    pub retries: Option<u32>,
    pub redirect: Option<bool>,
    pub histogram: Option<bool>,
    pub json: Option<bool>,
    pub json_file: Option<String>,
    pub csv: Option<String>,
    pub no_progress: Option<bool>,
}

/// The merged configuration that a run uses.
#[derive(Debug, Clone)]
pub struct Config {
    pub url: String,
    pub concurrency: usize,
    pub requests: Option<u64>,
    pub time: Option<u64>,
    pub method: String,
    pub headers: Vec<(String, String)>,
    pub body: Option<String>,
    pub rate: Option<u64>,
    pub http2: bool,
    pub no_tls: bool,
    pub dataset: Option<String>,
    pub dataset_mode: String,
    pub warmup: u64,
    pub timeout: u64,
    pub retries: u32,
    pub redirect: bool,
    pub histogram: bool,
    pub json: bool,
    pub json_file: Option<String>,
    pub csv: Option<String>,
    pub no_progress: bool,
}

/// Why the configuration cannot be merged.
#[derive(Debug, Clone, Copy, PartialEq, Eq, Structural)]
pub enum ConfigError {
    /// Neither the command line nor the file names a target URL.
    MissingUrl,
    /// A command-line header is malformed.
    Header(HeaderError),
}

/// The first of two optional values that is present.
pub open spec fn first_of<T>(a: Option<T>, b: Option<T>) -> Option<T> {
    match a {
        Some(x) => Some(x),
        None => b,
    }
}

/// The value, or `d` when absent.
pub open spec fn or_default<T>(a: Option<T>, d: T) -> T {
    match a {
        Some(x) => x,
        None => d,
    }
}

/// A field of the file configuration, absent when there is no file.
pub open spec fn from_file<T>(file: Option<FileConfig>, field: spec_fn(FileConfig) -> Option<T>) -> Option<T> {
    match file {
        Some(c) => field(c),
        None => None,
    }
}

/// A flag that is set when either the command line or the file sets it.
pub open spec fn either_flag(cli: bool, file: Option<bool>) -> bool {
    cli || or_default(file, false)
}

/// All command-line headers are well formed.
pub open spec fn cli_headers_ok(headers: Seq<String>) -> bool {
    forall|i: int| 0 <= i < headers.len() ==> (#[trigger] header_parse(headers[i]@)) is Ok
}

/// `i` is the first malformed command-line header and `e` its error.
pub open spec fn first_bad_header(headers: Seq<String>, i: int, e: HeaderError) -> bool {
    &&& 0 <= i < headers.len()
    &&& header_parse(headers[i]@) == Err::<(Seq<char>, Seq<char>), HeaderError>(e)
    &&& forall|j: int| 0 <= j < i ==> (#[trigger] header_parse(headers[j]@)) is Ok
}

/// The target URL: the command line's when non-empty, else the file's.
pub open spec fn merged_url(cli: Cli, file: Option<FileConfig>) -> Option<Seq<char>> {
    if cli.url@.len() > 0 {
        Some(cli.url@)
    } else {
        match from_file(file, |c: FileConfig| c.url) {
            Some(u) => Some(u@),
            None => None,
        }
    }
}

/// The headers of the merged configuration: the file's first, then the
/// command line's, each parsed.
pub open spec fn merged_headers(cli: Cli, file: Option<FileConfig>) -> Seq<(Seq<char>, Seq<char>)> {
    let file_headers = match from_file(file, |c: FileConfig| c.headers) {
        Some(h) => h.deep_view(),
        None => Seq::empty(),
    };
    file_headers + cli.header@.map_values(|h: String| header_parse(h@)->Ok_0)
}

/// The request body: the body file's content with trailing white space
/// removed, else the inline body, else the file configuration's.
pub open spec fn merged_body(cli: Cli, file: Option<FileConfig>, body_file: Option<Seq<char>>) -> Option<Seq<char>> {
    match body_file {
        Some(content) => Some(strip_end(content, CharSet::Whitespace)),
        None => first_of(cli.body.deep_view(), from_file(file, |c: FileConfig| c.body).deep_view()),
    }
}

/// Every field of `cfg` is the merge of `cli`, `file` and the defaults.
pub open spec fn is_merge(cfg: Config, cli: Cli, file: Option<FileConfig>, body_file: Option<Seq<char>>) -> bool {
    &&& Some(cfg.url@) == merged_url(cli, file)
    &&& cfg.concurrency == or_default(first_of(cli.concurrency, from_file(file, |c: FileConfig| c.concurrency)), 50)
    &&& cfg.requests == first_of(cli.requests, from_file(file, |c: FileConfig| c.requests))
    &&& cfg.time == first_of(cli.time, from_file(file, |c: FileConfig| c.time))
    &&& cfg.method@ == or_default(first_of(cli.method.deep_view(), from_file(file, |c: FileConfig| c.method).deep_view()), "GET"@)
    &&& cfg.headers.deep_view() == merged_headers(cli, file)
    &&& cfg.body.deep_view() == merged_body(cli, file, body_file)
    &&& cfg.rate == first_of(cli.rate, from_file(file, |c: FileConfig| c.rate))
    &&& cfg.http2 == either_flag(cli.http2, from_file(file, |c: FileConfig| c.http2))
    &&& cfg.no_tls == either_flag(cli.no_tls, from_file(file, |c: FileConfig| c.no_tls))
    &&& cfg.dataset.deep_view() == first_of(cli.dataset.deep_view(), from_file(file, |c: FileConfig| c.dataset).deep_view())
    &&& cfg.dataset_mode@ == or_default(first_of(cli.dataset_mode.deep_view(), from_file(file, |c: FileConfig| c.dataset_mode).deep_view()), "random"@)
    &&& cfg.warmup == or_default(first_of(cli.warmup, from_file(file, |c: FileConfig| c.warmup)), 0)
    &&& cfg.timeout == or_default(first_of(cli.timeout, from_file(file, |c: FileConfig| c.timeout)), 30)
    &&& cfg.retries == or_default(first_of(cli.retries, from_file(file, |c: FileConfig| c.retries)), 0)
    &&& cfg.redirect == (!cli.no_redirect && or_default(from_file(file, |c: FileConfig| c.redirect), true))
    &&& cfg.histogram == either_flag(cli.histogram, from_file(file, |c: FileConfig| c.histogram))
    &&& cfg.json == either_flag(cli.json, from_file(file, |c: FileConfig| c.json))
    &&& cfg.json_file.deep_view() == first_of(cli.json_file.deep_view(), from_file(file, |c: FileConfig| c.json_file).deep_view())
    &&& cfg.csv.deep_view() == first_of(cli.csv.deep_view(), from_file(file, |c: FileConfig| c.csv).deep_view())
    &&& cfg.no_progress == either_flag(cli.no_progress, from_file(file, |c: FileConfig| c.no_progress))
}

/// The command line comes first: every setting the command line gives is
/// the merged setting, whatever the configuration file says.
pub proof fn lemma_command_line_wins(cfg: Config, cli: Cli, file: Option<FileConfig>, body_file: Option<Seq<char>>)
    requires
        is_merge(cfg, cli, file, body_file),
    ensures
        cli.url@.len() > 0 ==> cfg.url@ == cli.url@,
        cli.concurrency matches Some(n) ==> cfg.concurrency == n,
        cli.requests matches Some(n) ==> cfg.requests == Some(n),
        cli.time matches Some(n) ==> cfg.time == Some(n),
        cli.method matches Some(m) ==> cfg.method@ == m@,
        body_file matches Some(content) ==> cfg.body.deep_view() == Some(strip_end(content, CharSet::Whitespace)),
        body_file is None ==> (cli.body matches Some(b) ==> cfg.body.deep_view() == Some(b@)),
        cli.rate matches Some(n) ==> cfg.rate == Some(n),
        cli.http2 ==> cfg.http2,
        cli.no_tls ==> cfg.no_tls,
        cli.dataset matches Some(d) ==> cfg.dataset.deep_view() == Some(d@),
        cli.dataset_mode matches Some(m) ==> cfg.dataset_mode@ == m@,
        cli.warmup matches Some(n) ==> cfg.warmup == n,
        cli.timeout matches Some(n) ==> cfg.timeout == n,
        cli.retries matches Some(n) ==> cfg.retries == n,
        cli.no_redirect ==> !cfg.redirect,
        cli.histogram ==> cfg.histogram,
        cli.json ==> cfg.json,
        cli.json_file matches Some(f) ==> cfg.json_file.deep_view() == Some(f@),
        cli.csv matches Some(f) ==> cfg.csv.deep_view() == Some(f@),
        cli.no_progress ==> cfg.no_progress,
{
}

/// The file fills in only what the command line leaves out, and the
/// built-in defaults (50 workers, `GET`, `random`, no warm-up, a 30 s
/// timeout, no retries, redirects followed) only what both leave out.
pub proof fn lemma_file_then_default(cfg: Config, cli: Cli, file: Option<FileConfig>, body_file: Option<Seq<char>>)
    requires
        is_merge(cfg, cli, file, body_file),
    ensures
        cli.url@.len() == 0 ==> (file matches Some(c) && c.url matches Some(u) && cfg.url@ == u@),
        cli.concurrency is None ==> cfg.concurrency == (match file {
            Some(c) => match c.concurrency { Some(n) => n, None => 50 },
            None => 50,
        }),
        cli.requests is None ==> cfg.requests == (match file { Some(c) => c.requests, None => None }),
        cli.time is None ==> cfg.time == (match file { Some(c) => c.time, None => None }),
        cli.method is None ==> cfg.method@ == (match file {
            Some(c) => match c.method { Some(m) => m@, None => "GET"@ },
            None => "GET"@,
        }),
        body_file is None && cli.body is None ==> cfg.body.deep_view() == (match file {
            Some(c) => c.body.deep_view(),
            None => None,
        }),
        cli.rate is None ==> cfg.rate == (match file { Some(c) => c.rate, None => None }),
        !cli.http2 ==> cfg.http2 == (file matches Some(c) && c.http2 == Some(true)),
        !cli.no_tls ==> cfg.no_tls == (file matches Some(c) && c.no_tls == Some(true)),
        cli.dataset is None ==> cfg.dataset.deep_view() == (match file {
            Some(c) => c.dataset.deep_view(),
            None => None,
        }),
        cli.dataset_mode is None ==> cfg.dataset_mode@ == (match file {
            Some(c) => match c.dataset_mode { Some(m) => m@, None => "random"@ },
            None => "random"@,
        }),
        cli.warmup is None ==> cfg.warmup == (match file {
            Some(c) => match c.warmup { Some(n) => n, None => 0 },
            None => 0,
        }),
        cli.timeout is None ==> cfg.timeout == (match file {
            Some(c) => match c.timeout { Some(n) => n, None => 30 },
            None => 30,
        }),
        cli.retries is None ==> cfg.retries == (match file {
            Some(c) => match c.retries { Some(n) => n, None => 0 },
            None => 0,
        }),
        !cli.no_redirect ==> cfg.redirect == !(file matches Some(c) && c.redirect == Some(false)),
        !cli.histogram ==> cfg.histogram == (file matches Some(c) && c.histogram == Some(true)),
        !cli.json ==> cfg.json == (file matches Some(c) && c.json == Some(true)),
        cli.json_file is None ==> cfg.json_file.deep_view() == (match file {
            Some(c) => c.json_file.deep_view(),
            None => None,
        }),
        cli.csv is None ==> cfg.csv.deep_view() == (match file {
            Some(c) => c.csv.deep_view(),
            None => None,
        }),
        !cli.no_progress ==> cfg.no_progress == (file matches Some(c) && c.no_progress == Some(true)),
{
}

/// A copy of an optional string.
fn copy_opt(o: &Option<String>) -> (r: Option<String>)
    ensures
        r.deep_view() == o.deep_view(),
{
    match o {
        Some(s) => Some(s.clone()),
        None => None,
    }
}

/// The first present string of two optional ones, copied.
fn first_string(a: &Option<String>, b: &Option<String>) -> (r: Option<String>)
    ensures
        r.deep_view() == first_of(a.deep_view(), b.deep_view()),
{
    match a {
        Some(s) => Some(s.clone()),
        None => copy_opt(b),
    }
}

/// A copy of a list of (name, value) pairs.
fn copy_pairs(v: &Vec<(String, String)>) -> (r: Vec<(String, String)>)
    ensures
        r.deep_view() == v.deep_view(),
{
    let mut out: Vec<(String, String)> = Vec::new();
    let mut i: usize = 0;
    while i < v.len()
        invariant
            0 <= i <= v.len(),
            out.deep_view() =~= v.deep_view().take(i as int),
        decreases v.len() - i,
    {
        let (a, b) = &v[i];
        let ghost before = out.deep_view();
        out.push((a.clone(), b.clone()));
        assert(out.deep_view() =~= before.push(v.deep_view()[i as int]));
        assert(v.deep_view().take(i + 1) =~= v.deep_view().take(i as int).push(
            v.deep_view()[i as int],
        ));
        i = i + 1;
    }
    assert(v.deep_view().take(v.len() as int) =~= v.deep_view());
    out
}

impl Config {
    /// Merges the command line, the configuration file (when one was read)
    /// and the defaults into the configuration of a run.
    ///
    /// `body_file` is the content of the request-body file named by
    /// `cli.file`, when it could be read.
#[verifier::spinoff_prover]
    pub fn from_cli(cli: &Cli, file: &Option<FileConfig>, body_file: Option<String>) -> (r: Result<Config, ConfigError>)
        ensures
            (r is Err && r->Err_0 == ConfigError::MissingUrl) <==> merged_url(*cli, *file) is None,
            r is Ok <==> merged_url(*cli, *file) is Some && cli_headers_ok(cli.header@),
            r matches Err(ConfigError::Header(e)) ==> exists|i: int| first_bad_header(cli.header@, i, e),
            r matches Ok(cfg) ==> is_merge(cfg, *cli, *file, body_file.deep_view()),
    {
        // Target URL: command line, else the file; required.
        let url = if !cli.url.as_str().is_empty() {
            cli.url.clone()
        } else {
            let file_url = match file {
                Some(c) => copy_opt(&c.url),
                None => None,
            };
            match file_url {
                Some(u) => u,
                None => {
                    return Err(ConfigError::MissingUrl);
                },
            }
        };

        // Headers: the file's first, then the command line's.
        let mut headers: Vec<(String, String)> = match file {
            Some(c) => match &c.headers {
                Some(h) => copy_pairs(h),
                None => Vec::new(),
            },
            None => Vec::new(),
        };
        let ghost file_headers = headers.deep_view();
        assert(merged_url(*cli, *file) is Some);
        let mut i: usize = 0;
        while i < cli.header.len()
            invariant
                0 <= i <= cli.header.len(),
                headers.deep_view() =~= file_headers + cli.header@.take(i as int).map_values(
                    |h: String| header_parse(h@)->Ok_0,
                ),
                forall|j: int| 0 <= j < i ==> (#[trigger] header_parse(cli.header@[j]@)) is Ok,
                merged_url(*cli, *file) is Some,
            decreases cli.header.len() - i,
        {
            match parse_header(cli.header[i].as_str()) {
                Ok((k, v)) => {
                    let ghost before = headers.deep_view();
                    let ghost parsed = header_parse(cli.header@[i as int]@);
                    assert(parsed is Ok && parsed->Ok_0 == (k@, v@));
                    headers.push((k, v));
                    assert(headers.deep_view() =~= before.push((k@, v@)));
                    assert(cli.header@.take(i + 1) =~= cli.header@.take(i as int).push(
                        cli.header@[i as int],
                    ));
                },
                Err(e) => {
                    assert(first_bad_header(cli.header@, i as int, e));
                    proof {
                        if merged_url(*cli, *file) is Some && cli_headers_ok(cli.header@) {
                            assert(header_parse(cli.header@[i as int]@) is Ok);
                        }
                    }
                    return Err(ConfigError::Header(e));
                },
            }
            i = i + 1;
        }
        assert(cli.header@.take(cli.header.len() as int) =~= cli.header@);

        // Request body: the body file (trailing white space removed), else
        // the inline body, else the file's.
        let body = match body_file {
            Some(content) => {
                let cs = chars_of(content.as_str());
                let end = skip_end(&cs, 0, cs.len(), &CharSet::Whitespace);
                assert(cs@.subrange(0, cs.len() as int) =~= content@);
                Some(string_of(&cs, 0, end))
            },
            None => match file {
                Some(c) => first_string(&cli.body, &c.body),
                None => copy_opt(&cli.body),
            },
        };

        let (f_concurrency, f_requests, f_time, f_rate, f_warmup, f_timeout, f_retries) = match file {
            Some(c) => (c.concurrency, c.requests, c.time, c.rate, c.warmup, c.timeout, c.retries),
            None => (None, None, None, None, None, None, None),
        };
        let (f_http2, f_no_tls, f_redirect, f_histogram, f_json, f_no_progress) = match file {
            Some(c) => (c.http2, c.no_tls, c.redirect, c.histogram, c.json, c.no_progress),
            None => (None, None, None, None, None, None),
        };
        let none: Option<String> = None;
        let (f_method, f_dataset, f_dataset_mode, f_json_file, f_csv) = match file {
            Some(c) => (&c.method, &c.dataset, &c.dataset_mode, &c.json_file, &c.csv),
            None => (&none, &none, &none, &none, &none),
        };

        let concurrency = match cli.concurrency {
            Some(n) => n,
            None => match f_concurrency {
                Some(n) => n,
                None => 50,
            },
        };
        let method = match first_string(&cli.method, f_method) {
            Some(m) => m,
            None => "GET".to_string(),
        };
        let dataset_mode = match first_string(&cli.dataset_mode, f_dataset_mode) {
            Some(m) => m,
            None => "random".to_string(),
        };
        let cfg = Config {
            url,
            concurrency,
            requests: if cli.requests.is_some() { cli.requests } else { f_requests },
            time: if cli.time.is_some() { cli.time } else { f_time },
            method,
            headers,
            body,
            rate: if cli.rate.is_some() { cli.rate } else { f_rate },
            http2: cli.http2 || (f_http2 == Some(true)),
            no_tls: cli.no_tls || (f_no_tls == Some(true)),
            dataset: first_string(&cli.dataset, f_dataset),
            dataset_mode,
            warmup: match cli.warmup {
                Some(n) => n,
                None => match f_warmup {
                    Some(n) => n,
                    None => 0,
                },
            },
            timeout: match cli.timeout {
                Some(n) => n,
                None => match f_timeout {
                    Some(n) => n,
                    None => 30,
                },
            },
            retries: match cli.retries {
                Some(n) => n,
                None => match f_retries {
                    Some(n) => n,
                    None => 0,
                },
            },
            redirect: !cli.no_redirect && f_redirect != Some(false),
            histogram: cli.histogram || (f_histogram == Some(true)),
            json: cli.json || (f_json == Some(true)),
            json_file: first_string(&cli.json_file, f_json_file),
            csv: first_string(&cli.csv, f_csv),
            no_progress: cli.no_progress || (f_no_progress == Some(true)),
        };
        proof {
            reveal_strlit("GET");
            reveal_strlit("random");
        }
        Ok(cfg)
    }
}

} // verus!
