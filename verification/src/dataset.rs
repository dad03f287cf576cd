//! Data-set driven requests: request templates, their selection, and the
//! `{{random.*}}` placeholder language that randomizes their text.
use vstd::prelude::*;
use crate::number::{
    decimal_int, lemma_decimal_int_parses, hex_byte, parse_i64, parse_i64_spec, parse_usize, parse_usize_spec,
    push_decimal_i64, push_hex_byte,
};
use crate::random::{random_alnum_char, random_bytes16, random_i64_between, random_index};
use crate::text::{
    CharSet, chars_of, find_char, find_pair, has_prefix, index_of_char, index_of_pair, is_alnum,
    push_char, push_range, push_str, range_equals, skip_end, skip_start, strip_end, strip_start,
    trim, trim_range,
};

verus! {

// ---------------------------------------------------------------------------
// Placeholder expressions
// ---------------------------------------------------------------------------

/// All characters are ASCII letters or digits.
pub open spec fn all_alnum(s: Seq<char>) -> bool {
    forall|i: int| 0 <= i < s.len() ==> is_alnum(#[trigger] s[i])
}

/// The argument text of `random.string(` / `random.int(` up to its closing
/// parentheses, trimmed: `rest.trim_end_matches(')').trim()`.
pub open spec fn arg_text(rest: Seq<char>) -> Seq<char> {
    trim(strip_end(rest, CharSet::Only(')')))
}

/// Length requested by `random.string(N)`: `N` parsed as `usize`, 8 when it
/// does not parse.
pub open spec fn len_arg(rest: Seq<char>) -> usize {
    match parse_usize_spec(arg_text(rest)) {
        Some(n) => n,
        None => 8,
    }
}

/// The first field of a comma-separated text (`split(',').next()`).
pub open spec fn first_field(s: Seq<char>) -> Seq<char> {
    match find_char(s, ',') {
        Some(i) => s.take(i),
        None => s,
    }
}

/// The second field of a comma-separated text, when there is a comma.
pub open spec fn second_field(s: Seq<char>) -> Option<Seq<char>> {
    match find_char(s, ',') {
        Some(i) => Some(first_field(s.skip(i + 1))),
        None => None,
    }
}

/// Bounds read by `random.int(A,B)`: `A` parsed as `i64` (0 when it does not
/// parse), `B` likewise (`A` when absent or unparsable).
pub open spec fn int_args(rest: Seq<char>) -> (i64, i64) {
    let range = arg_text(rest);
    let low = match parse_i64_spec(trim(first_field(range))) {
        Some(v) => v,
        None => 0,
    };
    let high = match second_field(range) {
        Some(f) => match parse_i64_spec(trim(f)) {
            Some(v) => v,
            None => low,
        },
        None => low,
    };
    (low, high)
}

/// Hexadecimal digits of a byte sequence, two per byte.
pub open spec fn hex_bytes(b: Seq<u8>) -> Seq<char>
    decreases b.len(),
{
    if b.len() == 0 {
        Seq::empty()
    } else {
        hex_bytes(b.drop_last()) + hex_byte(b.last())
    }
}

/// Sixteen bytes marked as a version-4, RFC 4122 variant UUID.
pub open spec fn uuid_v4_bytes(b: Seq<u8>) -> Seq<u8> {
    b.update(6, (b[6] & 0x0fu8) | 0x40u8).update(8, (b[8] & 0x3fu8) | 0x80u8)
}

/// Text of sixteen bytes in the 8-4-4-4-12 grouping of hexadecimal digits.
pub open spec fn uuid_text(b: Seq<u8>) -> Seq<char> {
    hex_bytes(b.subrange(0, 4)) + seq!['-'] + hex_bytes(b.subrange(4, 6)) + seq!['-']
        + hex_bytes(b.subrange(6, 8)) + seq!['-'] + hex_bytes(b.subrange(8, 10)) + seq!['-']
        + hex_bytes(b.subrange(10, 16))
}

/// The top-level domains of random e-mail addresses.
pub open spec fn tld(i: int) -> Seq<char> {
    if i == 0 {
        "com"@
    } else if i == 1 {
        "net"@
    } else if i == 2 {
        "org"@
    } else if i == 3 {
        "io"@
    } else {
        "cn"@
    }
}

/// An e-mail address built from its parts: `user@domain.tld`.
pub open spec fn email_text(user: Seq<char>, domain: Seq<char>, t: int) -> Seq<char> {
    user + seq!['@'] + domain + seq!['.'] + tld(t)
}

/// `r` is a possible output of `random.string(` followed by `rest`.
pub open spec fn string_renders(rest: Seq<char>, r: Seq<char>) -> bool {
    r.len() == len_arg(rest) && all_alnum(r)
}

/// `r` is a possible output of `random.int(` followed by `rest`: the lower
/// bound when the bounds are not increasing, else some value between them.
pub open spec fn int_renders(rest: Seq<char>, r: Seq<char>) -> bool {
    let (low, high) = int_args(rest);
    if high <= low {
        r == decimal_int(low as int)
    } else {
        exists|v: i64| low <= v <= high && r == decimal_int(v as int)
    }
}

/// `r` is a possible output of `random.uuid`.
pub open spec fn uuid_renders(r: Seq<char>) -> bool {
    exists|b: Seq<u8>| b.len() == 16 && r == uuid_text(uuid_v4_bytes(b))
}

/// `r` is a possible output of `random.email`.
pub open spec fn email_renders(r: Seq<char>) -> bool {
    exists|user: Seq<char>, domain: Seq<char>, t: int|
        user.len() == 8 && all_alnum(user) && domain.len() == 6 && all_alnum(domain) && 0 <= t < 5
            && r == email_text(user, domain, t)
}

/// `r` is a possible rendering of the placeholder expression `e` (the text
/// between `{{` and `}}`); an unknown expression renders as itself, braces
/// included.
#[verifier::opaque]
pub open spec fn expr_renders(e: Seq<char>, r: Seq<char>) -> bool {
    if e.len() >= 14 && e.take(14) == "random.string("@ {
        string_renders(e.skip(14), r)
    } else if e.len() >= 11 && e.take(11) == "random.int("@ {
        int_renders(e.skip(11), r)
    } else if e == "random.uuid"@ {
        uuid_renders(r)
    } else if e == "random.email"@ {
        email_renders(r)
    } else {
        r == seq!['{', '{'] + e + seq!['}', '}']
    }
}

/// What `random.int(A,B)` gives reads back as an `i64` between its bounds
/// (the lower bound itself when the bounds are not increasing).
pub proof fn lemma_int_output_parses(rest: Seq<char>, r: Seq<char>)
    requires
        int_renders(rest, r),
    ensures
        ({
            let (low, high) = int_args(rest);
            parse_i64_spec(r) matches Some(v) && low <= v && (high <= low ==> v == low) && (low
                < high ==> v <= high)
        }),
{
    let (low, high) = int_args(rest);
    if high <= low {
        lemma_decimal_int_parses(low);
    } else {
        let v = choose|v: i64| low <= v <= high && r == decimal_int(v as int);
        lemma_decimal_int_parses(v);
    }
}

/// `random.int(A,B)` with `A < B` may render any value of `[A, B]`: the
/// decimal text of every such value is a possible output (the value is
/// drawn, not fixed by the bounds).
pub proof fn lemma_int_renders_every_value(rest: Seq<char>, v: i64)
    requires
        int_args(rest).0 < int_args(rest).1,
        int_args(rest).0 <= v <= int_args(rest).1,
    ensures
        int_renders(rest, decimal_int(v as int)),
{
    let (low, high) = int_args(rest);
    assert(low <= v <= high && decimal_int(v as int) == decimal_int(v as int));
}

/// Bounds of `arg_text(v[lo..hi])` inside `v`.
fn arg_range(v: &Vec<char>, lo: usize, hi: usize) -> (r: (usize, usize))
    requires
        lo <= hi <= v.len(),
    ensures
        lo <= r.0 <= r.1 <= hi,
        v@.subrange(r.0 as int, r.1 as int) == arg_text(v@.subrange(lo as int, hi as int)),
{
    let e = skip_end(v, lo, hi, &CharSet::Only(')'));
    trim_range(v, lo, e)
}

/// `len_arg(v[lo..hi])`.
fn len_arg_of(v: &Vec<char>, lo: usize, hi: usize) -> (r: usize)
    requires
        lo <= hi <= v.len(),
    ensures
        r == len_arg(v@.subrange(lo as int, hi as int)),
{
    let (a, b) = arg_range(v, lo, hi);
    match parse_usize(v, a, b) {
        Some(n) => n,
        None => 8,
    }
}

/// Reads the length argument of `random.string(N)`: the text after the
/// opening parenthesis, closing parentheses and white space removed, parsed
/// as `usize`; 8 when it does not parse.
pub fn parse_len(rest: &str) -> (r: usize)
    ensures
        r == len_arg(rest@),
{
    let v = chars_of(rest);
    assert(v@.subrange(0, v.len() as int) =~= rest@);
    len_arg_of(&v, 0, v.len())
}

/// End (exclusive) of the first comma-separated field of `v[lo..hi]`.
fn field_end(v: &Vec<char>, lo: usize, hi: usize) -> (r: usize)
    requires
        lo <= hi <= v.len(),
    ensures
        lo <= r <= hi,
        v@.subrange(lo as int, r as int) == first_field(v@.subrange(lo as int, hi as int)),
        r < hi <==> find_char(v@.subrange(lo as int, hi as int), ',') is Some,
        r < hi ==> find_char(v@.subrange(lo as int, hi as int), ',') == Some(r - lo),
{
    match index_of_char(v, lo, hi, ',') {
        Some(i) => {
            assert(v@.subrange(lo as int, i as int) =~= v@.subrange(lo as int, hi as int).take(
                i - lo,
            ));
            i
        },
        None => hi,
    }
}

/// `int_args(v[lo..hi])`.
#[verifier::spinoff_prover]
fn int_args_of(v: &Vec<char>, lo: usize, hi: usize) -> (r: (i64, i64))
    requires
        lo <= hi <= v.len(),
    ensures
        r == int_args(v@.subrange(lo as int, hi as int)),
{
    let (a, b) = arg_range(v, lo, hi);
    let ghost range = v@.subrange(a as int, b as int);
    let e1 = field_end(v, a, b);
    let (s1, t1) = trim_range(v, a, e1);
    let low: i64 = match parse_i64(v, s1, t1) {
        Some(x) => x,
        None => 0,
    };
    if e1 < b {
        let e2 = field_end(v, e1 + 1, b);
        assert(v@.subrange(e1 + 1, b as int) =~= range.skip(e1 - a + 1));
        let (s2, t2) = trim_range(v, e1 + 1, e2);
        let high: i64 = match parse_i64(v, s2, t2) {
            Some(x) => x,
            None => low,
        };
        (low, high)
    } else {
        (low, low)
    }
}

/// A random string of `len` ASCII letters and digits.
pub fn random_string(len: usize) -> (r: String)
    ensures
        r@.len() == len,
        all_alnum(r@),
{
    let mut out = String::new();
    let mut i: usize = 0;
    while i < len
        invariant
            0 <= i <= len,
            out@.len() == i,
            all_alnum(out@),
        decreases len - i,
    {
        let c = random_alnum_char();
        push_char(&mut out, c);
        i = i + 1;
    }
    out
}

/// Renders bounds read from `random.int(..)`: the lower bound when the
/// bounds are not increasing, else a random value between them.
fn random_between_text(low: i64, high: i64) -> (r: String)
    ensures
        high <= low ==> r@ == decimal_int(low as int),
        low < high ==> exists|v: i64| low <= v <= high && r@ == decimal_int(v as int),
{
    let mut out = String::new();
    if high <= low {
        push_decimal_i64(&mut out, low);
        assert(out@ =~= decimal_int(low as int));
    } else {
        let v = random_i64_between(low, high);
        push_decimal_i64(&mut out, v);
        assert(out@ =~= decimal_int(v as int));
    }
    out
}

/// Renders `random.int(` followed by `rest` (for instance `1,100)`).
pub fn random_int(rest: &str) -> (r: String)
    ensures
        int_renders(rest@, r@),
{
    let v = chars_of(rest);
    assert(v@.subrange(0, v.len() as int) =~= rest@);
    let (low, high) = int_args_of(&v, 0, v.len());
    random_between_text(low, high)
}

/// Appends the hexadecimal digits of `b[lo..hi]`.
fn push_hex_range(out: &mut String, b: &Vec<u8>, lo: usize, hi: usize)
    requires
        lo <= hi <= b.len(),
    ensures
        final(out)@ == old(out)@ + hex_bytes(b@.subrange(lo as int, hi as int)),
{
    let ghost start = out@;
    let mut i: usize = lo;
    while i < hi
        invariant
            lo <= i <= hi <= b.len(),
            out@ == start + hex_bytes(b@.subrange(lo as int, i as int)),
        decreases hi - i,
    {
        push_hex_byte(out, b[i]);
        assert(b@.subrange(lo as int, i + 1).drop_last() =~= b@.subrange(lo as int, i as int));
        i = i + 1;
    }
}

/// The UUID text of sixteen bytes once they are marked as version 4,
/// variant RFC 4122.
pub fn uuid_from_bytes(bytes: [u8; 16]) -> (r: String)
    ensures
        r@ == uuid_text(uuid_v4_bytes(bytes@)),
{
    let mut b: Vec<u8> = Vec::new();
    let mut i: usize = 0;
    while i < 16
        invariant
            0 <= i <= 16,
            b@ =~= bytes@.take(i as int),
        decreases 16 - i,
    {
        b.push(bytes[i]);
        i = i + 1;
    }
    let b6 = (b[6] & 0x0f) | 0x40;
    let b8 = (b[8] & 0x3f) | 0x80;
    b.set(6, b6);
    b.set(8, b8);
    assert(b@ =~= uuid_v4_bytes(bytes@));
    let mut out = String::new();
    push_hex_range(&mut out, &b, 0, 4);
    push_char(&mut out, '-');
    push_hex_range(&mut out, &b, 4, 6);
    push_char(&mut out, '-');
    push_hex_range(&mut out, &b, 6, 8);
    push_char(&mut out, '-');
    push_hex_range(&mut out, &b, 8, 10);
    push_char(&mut out, '-');
    push_hex_range(&mut out, &b, 10, 16);
    assert(out@ =~= uuid_text(b@));
    out
}

/// A random version-4 UUID text.
pub fn random_uuid() -> (r: String)
    ensures
        uuid_renders(r@),
{
    let bytes = random_bytes16();
    let r = uuid_from_bytes(bytes);
    assert(bytes@.len() == 16);
    r
}

/// The e-mail address `user@domain.tld` with the `t`-th top-level domain.
pub fn email_from_parts(user: &str, domain: &str, t: usize) -> (r: String)
    requires
        t < 5,
    ensures
        r@ == email_text(user@, domain@, t as int),
{
    let mut out = String::new();
    push_str(&mut out, user);
    push_char(&mut out, '@');
    push_str(&mut out, domain);
    push_char(&mut out, '.');
    if t == 0 {
        push_str(&mut out, "com");
    } else if t == 1 {
        push_str(&mut out, "net");
    } else if t == 2 {
        push_str(&mut out, "org");
    } else if t == 3 {
        push_str(&mut out, "io");
    } else {
        push_str(&mut out, "cn");
    }
    assert(out@ =~= email_text(user@, domain@, t as int));
    out
}

/// A random e-mail address: eight random letters or digits, `@`, six more,
/// `.`, and one of five top-level domains.
pub fn random_email() -> (r: String)
    ensures
        email_renders(r@),
{
    let user = random_string(8);
    let domain = random_string(6);
    let t = random_index(5);
    let r = email_from_parts(user.as_str(), domain.as_str(), t);
    assert(user@.len() == 8 && all_alnum(user@) && domain@.len() == 6 && all_alnum(domain@)
        && 0 <= t < 5 && r@ == email_text(user@, domain@, t as int));
    r
}

/// Renders the placeholder expression `v[lo..hi]`.
#[verifier::spinoff_prover]
fn render_expr(v: &Vec<char>, lo: usize, hi: usize) -> (r: String)
    requires
        lo <= hi <= v.len(),
    ensures
        expr_renders(v@.subrange(lo as int, hi as int), r@),
{
    let ghost e = v@.subrange(lo as int, hi as int);
    reveal(expr_renders);
    let p_string = chars_of("random.string(");
    let p_int = chars_of("random.int(");
    let w_uuid = chars_of("random.uuid");
    let w_email = chars_of("random.email");
    proof {
        reveal_strlit("random.string(");
        reveal_strlit("random.int(");
    }
    if has_prefix(v, lo, hi, &p_string) {
        assert(e.take(14) =~= v@.subrange(lo as int, lo + 14));
        assert(e.skip(14) =~= v@.subrange(lo + 14, hi as int));
        let n = len_arg_of(v, lo + 14, hi);
        return random_string(n);
    }
    assert(!(e.len() >= 14 && e.take(14) == "random.string("@)) by {
        if e.len() >= 14 && e.take(14) == "random.string("@ {
            assert(e.take(14) =~= v@.subrange(lo as int, lo + 14));
        }
    }
    if has_prefix(v, lo, hi, &p_int) {
        assert(e.take(11) =~= v@.subrange(lo as int, lo + 11));
        assert(e.skip(11) =~= v@.subrange(lo + 11, hi as int));
        let (low, high) = int_args_of(v, lo + 11, hi);
        return random_between_text(low, high);
    }
    assert(!(e.len() >= 11 && e.take(11) == "random.int("@)) by {
        if e.len() >= 11 && e.take(11) == "random.int("@ {
            assert(e.take(11) =~= v@.subrange(lo as int, lo + 11));
        }
    }
    if range_equals(v, lo, hi, &w_uuid) {
        return random_uuid();
    }
    if range_equals(v, lo, hi, &w_email) {
        return random_email();
    }
    let mut out = String::new();
    push_char(&mut out, '{');
    push_char(&mut out, '{');
    push_range(&mut out, v, lo, hi);
    push_char(&mut out, '}');
    push_char(&mut out, '}');
    assert(out@ =~= seq!['{', '{'] + e + seq!['}', '}']);
    out
}

// ---------------------------------------------------------------------------
// Templates
// ---------------------------------------------------------------------------

/// The first placeholder of `s`: the index of its `{{` and the length of the
/// expression up to the first `}}` after it. `None` when `s` holds no `{{`,
/// or no `}}` after its first `{{`.
pub open spec fn first_placeholder(s: Seq<char>) -> Option<(int, int)> {
    match find_pair(s, '{', '{') {
        None => None,
        Some(start) => match find_pair(s.skip(start + 2), '}', '}') {
            None => None,
            Some(len) => Some((start, len)),
        },
    }
}

/// `out` is a possible rendering of the template `s`: the text between
/// placeholders is copied, each placeholder `{{e}}` (up to the first `}}`)
/// is replaced by a rendering of `e`, and a `{{` with no `}}` after it is
/// copied as it stands, with the rest of the text.
pub open spec fn template_renders(s: Seq<char>, out: Seq<char>) -> bool
    decreases s.len(),
{
    match first_placeholder(s) {
        None => out == s,
        Some((start, len)) => {
            let expr = s.subrange(start + 2, start + 2 + len);
            let rest_at = start + 2 + len + 2;
            if 0 <= start && 0 <= len && rest_at <= s.len() {
                exists|r: Seq<char>|
                    #![trigger expr_renders(expr, r)]
                    expr_renders(expr, r) && out.len() >= start + r.len() && out.take(start)
                        == s.take(start) && out.subrange(start, start + r.len()) == r
                        && template_renders(s.skip(rest_at), out.skip(start + r.len()))
            } else {
                false
            }
        },
    }
}

/// One placeholder step of a rendering: text before it, its rendering,
/// then a rendering of the text after it.
#[verifier::spinoff_prover]
proof fn lemma_template_step(s: Seq<char>, st: int, len: int, r: Seq<char>, t: Seq<char>)
    requires
        first_placeholder(s) == Some((st, len)),
        0 <= st && 0 <= len && st + 2 + len + 2 <= s.len(),
        expr_renders(s.subrange(st + 2, st + 2 + len), r),
        template_renders(s.skip(st + 2 + len + 2), t),
    ensures
        template_renders(s, s.take(st) + r + t),
{
    let out = s.take(st) + r + t;
    assert(out.take(st) =~= s.take(st));
    assert(out.subrange(st, st + r.len()) =~= r);
    assert(out.skip(st + r.len()) =~= t);
    let expr = s.subrange(st + 2, st + 2 + len);
    let rest_at = st + 2 + len + 2;
    assert(exists|r2: Seq<char>|
        #![trigger expr_renders(expr, r2)]
        expr_renders(expr, r2) && out.len() >= st + r2.len() && out.take(st) == s.take(st)
            && out.subrange(st, st + r2.len()) == r2 && template_renders(
            s.skip(rest_at),
            out.skip(st + r2.len()),
        ));
    match first_placeholder(s) {
        Some((a, b)) => {
            assert(a == st && b == len);
        },
        None => {},
    }
}

/// A text with no complete placeholder (no `{{`, or no `}}` after its
/// first `{{`) renders as itself, and only as itself.
pub proof fn lemma_plain_text_renders_unchanged(s: Seq<char>, out: Seq<char>)
    requires
        first_placeholder(s) is None,
    ensures
        template_renders(s, out) <==> out == s,
{
}

/// Replaces every `{{random.*}}` placeholder of `input` by a random value:
/// `random.string(N)`, `random.int(A,B)`, `random.uuid`, `random.email`.
/// Unknown expressions stay as they are, and so does the text from a `{{`
/// that has no `}}` after it.
#[verifier::spinoff_prover]
pub fn render_template(input: &str) -> (r: String)
    ensures
        template_renders(input@, r@),
{
    let v = chars_of(input);
    let n = v.len();
    let mut out = String::new();
    let mut pos: usize = 0;
    assert(v@.subrange(0, n as int) =~= input@);
    assert forall|tail: Seq<char>| template_renders(v@.subrange(0, n as int), tail) implies
        template_renders(input@, out@ + tail) by {
        assert(out@ + tail =~= tail);
    }
    loop
        invariant
            pos <= n == v.len(),
            v@ == input@,
            forall|tail: Seq<char>| #[trigger]
                template_renders(v@.subrange(pos as int, n as int), tail) ==> template_renders(
                    input@,
                    out@ + tail,
                ),
        decreases n - pos,
    {
        let ghost rest = v@.subrange(pos as int, n as int);
        let ghost before = out@;
        match index_of_pair(&v, pos, n, '{', '{') {
            None => {
                assert(first_placeholder(rest) is None);
                push_range(&mut out, &v, pos, n);
                assert(template_renders(rest, rest));
                assert(before + rest == out@);
                return out;
            },
            Some(start) => {
                let after = start + 2;
                assert(rest.skip(start - pos + 2) =~= v@.subrange(after as int, n as int));
                match index_of_pair(&v, after, n, '}', '}') {
                    None => {
                        assert(first_placeholder(rest) is None);
                        push_range(&mut out, &v, pos, n);
                        assert(template_renders(rest, rest));
                        assert(before + rest == out@);
                        return out;
                    },
                    Some(end) => {
                        let ghost st = start - pos;
                        let ghost len = end - after;
                        assert(first_placeholder(rest) == Some((st, len)));
                        let ghost expr = v@.subrange(after as int, end as int);
                        assert(expr =~= rest.subrange(st + 2, st + 2 + len));
                        push_range(&mut out, &v, pos, start);
                        let r = render_expr(&v, after, end);
                        push_str(&mut out, r.as_str());
                        let ghost next = (end + 2) as int;
                        assert(rest.skip(st + 2 + len + 2) =~= v@.subrange(next, n as int));
                        assert forall|tail: Seq<char>| #[trigger]
                            template_renders(v@.subrange(next, n as int), tail) implies
                            template_renders(input@, out@ + tail) by {
                            let whole = v@.subrange(pos as int, start as int) + r@ + tail;
                            lemma_template_step(rest, st, len, r@, tail);
                            assert(rest.take(st) + r@ + tail =~= whole);
                            assert(out@ + tail =~= before + whole);
                        }
                        pos = end + 2;
                    },
                }
            },
        }
    }
}

// ---------------------------------------------------------------------------
// Selection modes
// ---------------------------------------------------------------------------

/// How a worker picks the template of its next request.
#[derive(Debug, Clone, Copy, PartialEq, Eq, Structural)]
pub enum SelectMode {
    /// A template drawn at random.
    Random,
    /// Templates in turn, by request number.
    Sequential,
}

/// Why a selection-mode name is refused.
#[derive(Debug, Clone, Copy, PartialEq, Eq, Structural)]
pub enum ModeError {
    /// The name is none of `random`, `sequential`, `seq` (in any ASCII case).
    Unknown,
}

/// ASCII lower case of a character (other characters unchanged).
pub open spec fn ascii_lower(c: char) -> char {
    if 0x41 <= (c as u32) && (c as u32) <= 0x5a {
        ((c as u32) + 32) as char
    } else {
        c
    }
}

/// `str::to_ascii_lowercase`.
pub open spec fn lower_text(s: Seq<char>) -> Seq<char> {
    s.map_values(|c: char| ascii_lower(c))
}

/// The mode a name selects: `random`, or `sequential` / `seq`, ignoring
/// ASCII case.
pub open spec fn mode_named(s: Seq<char>) -> Option<SelectMode> {
    let l = lower_text(s);
    if l == "random"@ {
        Some(SelectMode::Random)
    } else if l == "sequential"@ || l == "seq"@ {
        Some(SelectMode::Sequential)
    } else {
        None
    }
}

fn to_ascii_lower(c: char) -> (r: char)
    ensures
        r == ascii_lower(c),
{
    let u = c as u32;
    if 0x41 <= u && u <= 0x5a {
        ((u as u8) + 32) as char
    } else {
        c
    }
}

/// Parses the name of a selection mode.
pub fn parse_mode(s: &str) -> (r: Result<SelectMode, ModeError>)
    ensures
        match mode_named(s@) {
            Some(m) => r == Ok::<SelectMode, ModeError>(m),
            None => r == Err::<SelectMode, ModeError>(ModeError::Unknown),
        },
{
    let v = chars_of(s);
    let mut lower: Vec<char> = Vec::new();
    let mut i: usize = 0;
    while i < v.len()
        invariant
            0 <= i <= v.len(),
            v@ == s@,
            lower@ =~= lower_text(v@.take(i as int)),
        decreases v.len() - i,
    {
        lower.push(to_ascii_lower(v[i]));
        i = i + 1;
    }
    assert(v@.take(v.len() as int) =~= v@);
    let n = lower.len();
    assert(lower@.subrange(0, n as int) =~= lower@);
    if range_equals(&lower, 0, n, &chars_of("random")) {
        Ok(SelectMode::Random)
    } else if range_equals(&lower, 0, n, &chars_of("sequential")) || range_equals(
        &lower,
        0,
        n,
        &chars_of("seq"),
    ) {
        Ok(SelectMode::Sequential)
    } else {
        Err(ModeError::Unknown)
    }
}

impl SelectMode {
    /// Parses the name of a selection mode (see `parse_mode`).
    pub fn parse(s: &str) -> (r: Result<SelectMode, ModeError>)
        ensures
            match mode_named(s@) {
                Some(m) => r == Ok::<SelectMode, ModeError>(m),
                None => r == Err::<SelectMode, ModeError>(ModeError::Unknown),
            },
    {
        parse_mode(s)
    }
}

// ---------------------------------------------------------------------------
// Templates and data sets
// ---------------------------------------------------------------------------

/// One request template of a data set.
#[derive(Debug, Clone)]
pub struct RequestTemplate {
    /// Request method.
    pub method: String,
    /// Request path, or a full `http://` / `https://` URL; may hold placeholders.
    pub path: String,
    /// Request headers as (name, value) pairs.
    pub headers: Vec<(String, String)>,
    /// Request body; may hold placeholders.
    pub body: Option<String>,
}

/// A data set: the templates that requests are drawn from.
#[derive(Debug, Clone)]
pub struct DataSet {
    pub templates: Vec<RequestTemplate>,
}

/// The method of a template that names none.
pub fn default_method() -> (r: String)
    ensures
        r@ == "GET"@,
{
    "GET".to_string()
}

/// The URL a rendered path designates against the base URL: the path itself
/// when it is an absolute `http://` or `https://` URL, else the base without
/// trailing `/`, one `/`, and the path without leading `/`.
pub open spec fn join_url(base: Seq<char>, path: Seq<char>) -> Seq<char> {
    if (path.len() >= 7 && path.take(7) == "http://"@) || (path.len() >= 8 && path.take(8)
        == "https://"@) {
        path
    } else {
        strip_end(base, CharSet::Only('/')) + seq!['/'] + strip_start(path, CharSet::Only('/'))
    }
}

/// An absolute URL is used as the request URL unchanged: a rendered path
/// that begins with `http://` or with `https://` is the URL, whatever the
/// base URL.
pub proof fn lemma_absolute_url_kept(base: Seq<char>, path: Seq<char>)
    requires
        (path.len() >= 7 && path.take(7) == "http://"@) || (path.len() >= 8 && path.take(8)
            == "https://"@),
    ensures
        join_url(base, path) == path,
{
}

/// A relative path is appended to the base URL: the URL starts with the
/// base URL (its trailing `/` dropped), then one `/`, and ends with the path
/// (its leading `/` dropped).
pub proof fn lemma_relative_url_joined(base: Seq<char>, path: Seq<char>)
    requires
        !(path.len() >= 7 && path.take(7) == "http://"@),
        !(path.len() >= 8 && path.take(8) == "https://"@),
    ensures
        ({
            let b = strip_end(base, CharSet::Only('/'));
            let q = strip_start(path, CharSet::Only('/'));
            let u = join_url(base, path);
            &&& u.len() == b.len() + 1 + q.len()
            &&& u.take(b.len() as int) == b
            &&& u[b.len() as int] == '/'
            &&& u.skip(b.len() as int + 1) == q
        }),
{
    let b = strip_end(base, CharSet::Only('/'));
    let q = strip_start(path, CharSet::Only('/'));
    let u = join_url(base, path);
    assert(u == b + seq!['/'] + q);
    assert(u.take(b.len() as int) =~= b);
    assert(u.skip(b.len() as int + 1) =~= q);
}

/// A template that the random mode may pick: any template of the data set.
pub open spec fn random_pick_possible(templates: Seq<RequestTemplate>, t: RequestTemplate) -> bool {
    exists|i: int| 0 <= i < templates.len() && t == templates[i]
}

/// In random mode every template of the data set can be picked: each one is
/// a possible outcome of `DataSet::pick`.
pub proof fn lemma_random_pick_reaches_every_template(templates: Seq<RequestTemplate>, i: int)
    requires
        0 <= i < templates.len(),
    ensures
        random_pick_possible(templates, templates[i]),
{
}

impl DataSet {
    /// The template a request with number `seq` uses: drawn at random, or
    /// the `seq`-th in turn. The data set must not be empty.
    pub fn pick(&self, mode: SelectMode, seq: u64) -> (r: &RequestTemplate)
        requires
            self.templates.len() > 0,
        ensures
            mode == SelectMode::Sequential ==> *r == self.templates@[((seq as usize) as int)
                % (self.templates.len() as int)],
            mode == SelectMode::Random ==> random_pick_possible(self.templates@, *r),
    {
        let n = self.templates.len();
        let idx = match mode {
            SelectMode::Random => random_index(n),
            SelectMode::Sequential => (seq as usize) % n,
        };
        &self.templates[idx]
    }
}

impl RequestTemplate {
    /// Renders the template against the base URL: the placeholders of the
    /// path and body are replaced, the path is joined to the base URL, and
    /// method and headers are copied. Gives (URL, method, headers, body).
#[verifier::spinoff_prover]
    pub fn render(&self, base_url: &str) -> (r: (String, String, Vec<(String, String)>, Option<String>))
        ensures
            exists|p: Seq<char>| template_renders(self.path@, p) && r.0@ == join_url(base_url@, p),
            exists|p: Seq<char>| #![trigger template_renders(self.path@, p)]
                template_renders(self.path@, p) && (p.len() >= 7 && p.take(7) == "http://"@
                    ==> r.0@ == p) && (p.len() >= 8 && p.take(8) == "https://"@ ==> r.0@ == p),
            r.1@ == self.method@,
            r.2.deep_view() == self.headers.deep_view(),
            match self.body {
                None => r.3 is None,
                Some(b) => r.3 matches Some(rb) && template_renders(b@, rb@),
            },
    {
        let path = render_template(self.path.as_str());
        let pv = chars_of(path.as_str());
        let pn = pv.len();
        let http = chars_of("http://");
        let https = chars_of("https://");
        proof {
            reveal_strlit("http://");
            reveal_strlit("https://");
        }
        let ghost p = path@;
        let is_http = has_prefix(&pv, 0, pn, &http);
        let is_https = has_prefix(&pv, 0, pn, &https);
        proof {
            if pn >= 7 {
                assert(pv@.subrange(0, 7) =~= p.take(7));
            }
            if pn >= 8 {
                assert(pv@.subrange(0, 8) =~= p.take(8));
            }
        }
        let absolute = is_http || is_https;
        let url = if absolute {
            path
        } else {
            let bv = chars_of(base_url);
            let bn = bv.len();
            assert(bv@.subrange(0, bn as int) =~= base_url@);
            assert(pv@.subrange(0, pn as int) =~= path@);
            let e = skip_end(&bv, 0, bn, &CharSet::Only('/'));
            let st = skip_start(&pv, 0, pn, &CharSet::Only('/'));
            let mut out = String::new();
            push_range(&mut out, &bv, 0, e);
            push_char(&mut out, '/');
            push_range(&mut out, &pv, st, pn);
            assert(out@ =~= join_url(base_url@, path@));
            out
        };
        assert(url@ == join_url(base_url@, p));
        assert(template_renders(self.path@, p));
        let mut headers: Vec<(String, String)> = Vec::new();
        let mut i: usize = 0;
        while i < self.headers.len()
            invariant
                0 <= i <= self.headers.len(),
                headers.deep_view() =~= self.headers.deep_view().take(i as int),
            decreases self.headers.len() - i,
        {
            let (k, v) = &self.headers[i];
            let ghost before = headers.deep_view();
            headers.push((k.clone(), v.clone()));
            assert(headers.deep_view() =~= before.push(self.headers.deep_view()[i as int]));
            assert(self.headers.deep_view().take(i + 1) =~= self.headers.deep_view().take(
                i as int,
            ).push(self.headers.deep_view()[i as int]));
            i = i + 1;
        }
        assert(self.headers.deep_view().take(self.headers.len() as int) =~= self.headers.deep_view());
        let body = match &self.body {
            Some(b) => Some(render_template(b.as_str())),
            None => None,
        };
        (url, self.method.clone(), headers, body)
    }
}

} // verus!
