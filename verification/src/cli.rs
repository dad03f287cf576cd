//! Command-line values and the parsing of what they hold: request headers
//! written as `name: value`, and request methods.
use vstd::prelude::*;
use crate::text::{chars_of, find_char, index_of_char, string_of, trim, trim_range};

verus! {

/// The command-line options of the tool, as plain values.
///
/// The two latency and error-rate thresholds, which are fractional numbers,
/// are kept by the program around the library.
#[derive(Debug, Clone)]
pub struct Cli {
    /// Target URL (may be empty when a configuration file supplies it).
    pub url: String,
    /// Number of concurrent workers.
    pub concurrency: Option<usize>,
    /// Total number of measured requests.
    pub requests: Option<u64>,
    /// Test duration in seconds.
    pub time: Option<u64>,
    /// Request method.
    pub method: Option<String>,
    /// Custom headers, each written `name: value`.
    pub header: Vec<String>,
    /// Inline request body.
    pub body: Option<String>,
    /// File that holds the request body.
    pub file: Option<String>,
    /// Requests per second allowed by the rate limiter (0: unlimited).
    pub rate: Option<u64>,
    /// Use HTTP/2.
    pub http2: bool,
    /// Accept invalid TLS certificates.
    pub no_tls: bool,
    /// JSON data set file.
    pub dataset: Option<String>,
    /// Data-set selection mode (`random` / `sequential`).
    pub dataset_mode: Option<String>,
    /// Number of warm-up requests, not measured.
    pub warmup: Option<u64>,
    /// Per-request timeout in seconds.
    pub timeout: Option<u64>,
    /// Retries after a failed request.
    pub retries: Option<u32>,
    /// Do not follow redirects.
    pub no_redirect: bool,
    /// Print a latency histogram.
    pub histogram: bool,
    /// Print the report as JSON.
    pub json: bool,
    /// JSON report file.
    pub json_file: Option<String>,
    /// CSV detail file.
    pub csv: Option<String>,
    /// YAML configuration file.
    pub config: Option<String>,
    /// Hide the progress bar.
    pub no_progress: bool,
}

/// Why a header argument is refused.
#[derive(Debug, Clone, Copy, PartialEq, Eq, Structural)]
pub enum HeaderError {
    /// No `:` separates the name from the value.
    MissingColon,
    /// The name before the `:` is empty once trimmed.
    EmptyName,
}

/// What `parse_header` gives for the text `s`: split at the first `:`,
/// both sides trimmed of white space, and the name must not be empty.
pub open spec fn header_parse(s: Seq<char>) -> Result<(Seq<char>, Seq<char>), HeaderError> {
    match find_char(s, ':') {
        None => Err(HeaderError::MissingColon),
        Some(i) => {
            let name = trim(s.take(i));
            let value = trim(s.skip(i + 1));
            if name.len() == 0 {
                Err(HeaderError::EmptyName)
            } else {
                Ok((name, value))
            }
        },
    }
}

/// Parses a custom header written `name: value` into its trimmed name and value.
pub fn parse_header(header: &str) -> (r: Result<(String, String), HeaderError>)
    ensures
        match header_parse(header@) {
            Ok((name, value)) => r matches Ok((n, v)) && n@ == name && v@ == value,
            Err(e) => r == Err::<(String, String), HeaderError>(e),
        },
{
    let v = chars_of(header);
    let n = v.len();
    assert(v@.subrange(0, n as int) =~= header@);
    match index_of_char(&v, 0, n, ':') {
        None => Err(HeaderError::MissingColon),
        Some(idx) => {
            assert(v@.subrange(0, idx as int) =~= header@.take(idx as int));
            assert(v@.subrange(idx + 1, n as int) =~= header@.skip(idx + 1));
            let (a, b) = trim_range(&v, 0, idx);
            let (c, d) = trim_range(&v, idx + 1, n);
            if a == b {
                return Err(HeaderError::EmptyName);
            }
            Ok((string_of(&v, a, b), string_of(&v, c, d)))
        },
    }
}

// ---------------------------------------------------------------------------
// Request methods
// ---------------------------------------------------------------------------

#[verifier::external_type_specification]
#[verifier::external_body]
pub struct ExMethod(reqwest::Method);

/// An HTTP token character (RFC 9110 `tchar`).
pub open spec fn is_tchar(c: char) -> bool {
    let u = c as u32;
    ||| (0x30 <= u && u <= 0x39)
    ||| (0x41 <= u && u <= 0x5a)
    ||| (0x61 <= u && u <= 0x7a)
    ||| c == '!' || c == '#' || c == '$' || c == '%' || c == '&' || c == '\''
    ||| c == '*' || c == '+' || c == '-' || c == '.' || c == '^' || c == '_'
    ||| c == '`' || c == '|' || c == '~'
}

/// A non-empty sequence of token characters: the text `reqwest::Method` accepts.
pub open spec fn is_token(s: Seq<char>) -> bool {
    s.len() > 0 && forall|i: int| 0 <= i < s.len() ==> is_tchar(#[trigger] s[i])
}

/// The method that `reqwest::Method` parses from the text `s`.
pub uninterp spec fn method_named(s: Seq<char>) -> reqwest::Method;

/// `str::parse::<reqwest::Method>` (http's `Method::from_str`). Its source
/// accepts exactly the non-empty texts whose bytes are all token characters
/// (standard and extension methods alike); the parsed method is named by
/// `method_named`. The error value carries nothing and is dropped.
#[verifier::external_body]
fn method_from_text(s: &str) -> (r: Option<reqwest::Method>)
    ensures
        r is Some <==> is_token(s@),
        r matches Some(m) ==> m == method_named(s@),
{
    s.parse::<reqwest::Method>().ok()
}

/// Why a method argument is refused.
#[derive(Debug, Clone, Copy, PartialEq, Eq, Structural)]
pub enum MethodError {
    /// The text is empty or holds a character outside the HTTP token set.
    Invalid,
}

/// Parses a request method name (`GET`, `POST`, or any HTTP token).
pub fn parse_method(method: &str) -> (r: Result<reqwest::Method, MethodError>)
    ensures
        r is Ok <==> is_token(method@),
        r matches Ok(m) ==> m == method_named(method@),
        r is Err ==> r == Err::<reqwest::Method, MethodError>(MethodError::Invalid),
{
    match method_from_text(method) {
        Some(m) => Ok(m),
        None => Err(MethodError::Invalid),
    }
}

} // verus!
