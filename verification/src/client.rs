//! Settings of the HTTP client that the program builds: which configured
//! headers become its default headers.
use vstd::prelude::*;
use crate::cli::is_tchar;

verus! {

/// A text `reqwest::header::HeaderName::from_bytes` accepts: one to 65535
/// token characters (either case).
pub open spec fn is_header_name(s: Seq<char>) -> bool {
    &&& 0 < s.len() <= 65535
    &&& forall|i: int| 0 <= i < s.len() ==> is_tchar(#[trigger] s[i])
}

/// A text `reqwest::header::HeaderValue::from_str` accepts: no control
/// character other than horizontal tab, and no DEL.
pub open spec fn is_header_value(s: Seq<char>) -> bool {
    forall|i: int|
        0 <= i < s.len() ==> {
            let u = #[trigger] s[i] as u32;
            (u >= 32 && u != 127) || u == 9
        }
}

/// Whether `HeaderName::from_bytes` accepts the bytes of `name`. Its source
/// accepts a name of 1 to 65535 bytes, each a token character; characters
/// outside ASCII are never token characters.
#[verifier::external_body]
fn header_name_accepted(name: &str) -> (r: bool)
    ensures
        r == is_header_name(name@),
{
    reqwest::header::HeaderName::from_bytes(name.as_bytes()).is_ok()
}

/// Whether `HeaderValue::from_str` accepts `value`. Its source accepts the
/// bytes from 32 to 255 except 127, and the tab; the bytes of a character
/// outside ASCII are all above 127.
#[verifier::external_body]
fn header_value_accepted(value: &str) -> (r: bool)
    ensures
        r == is_header_value(value@),
{
    reqwest::header::HeaderValue::from_str(value).is_ok()
}

/// The headers kept from `headers`: those whose name and value HTTP accepts.
pub open spec fn accepted_headers(headers: Seq<(Seq<char>, Seq<char>)>) -> Seq<(Seq<char>, Seq<char>)> {
    headers.filter(|h: (Seq<char>, Seq<char>)| is_header_name(h.0) && is_header_value(h.1))
}

/// The default headers of the client: the configured headers whose name and
/// value are valid, in order (invalid ones are left out).
pub fn default_headers(headers: &Vec<(String, String)>) -> (r: Vec<(String, String)>)
    ensures
        r.deep_view() == accepted_headers(headers.deep_view()),
{
    let mut out: Vec<(String, String)> = Vec::new();
    let mut i: usize = 0;
    while i < headers.len()
        invariant
            0 <= i <= headers.len(),
            out.deep_view() == accepted_headers(headers.deep_view().take(i as int)),
        decreases headers.len() - i,
    {
        let (k, v) = &headers[i];
        let ghost prefix = headers.deep_view().take(i as int);
        let ghost h = headers.deep_view()[i as int];
        assert(headers.deep_view().take(i + 1) =~= prefix.push(h));
        assert(accepted_headers(prefix.push(h)) =~= if is_header_name(h.0) && is_header_value(h.1) {
            accepted_headers(prefix).push(h)
        } else {
            accepted_headers(prefix)
        }) by {
            reveal_with_fuel(Seq::filter, 1);
            assert(prefix.push(h).drop_last() =~= prefix);
        }
        if header_name_accepted(k.as_str()) && header_value_accepted(v.as_str()) {
            let ghost before = out.deep_view();
            out.push((k.clone(), v.clone()));
            assert(out.deep_view() =~= before.push(h));
        }
        i = i + 1;
    }
    assert(headers.deep_view().take(headers.len() as int) =~= headers.deep_view());
    out
}

} // verus!
