use rhb::dataset::{
    default_method, email_from_parts, parse_len, parse_mode, random_email, random_int,
    random_string, random_uuid, render_template, uuid_from_bytes, DataSet, ModeError,
    RequestTemplate, SelectMode,
};

#[test]
fn test_render_random_string() {
    let out = render_template("user_{{random.string(8)}}");
    assert!(out.starts_with("user_"));
    assert_eq!(out.len(), 5 + 8);
}

#[test]
fn test_render_random_int() {
    for _ in 0..10 {
        let out = render_template("id={{random.int(1,100000)}}");
        assert!(out.starts_with("id="));
        let n: i64 = out[3..].parse().unwrap();
        assert!((1..=100000).contains(&n));
    }
}

#[test]
fn test_render_plain() {
    let out = render_template("/api/users/123");
    assert_eq!(out, "/api/users/123");
}

#[test]
fn test_parse_mode() {
    assert_eq!(parse_mode("random").unwrap(), SelectMode::Random);
    assert_eq!(parse_mode("sequential").unwrap(), SelectMode::Sequential);
    assert!(parse_mode("bad").is_err());
}

#[test]
fn mode_names_ignore_ascii_case() {
    assert_eq!(parse_mode("SEQ").unwrap(), SelectMode::Sequential);
    assert_eq!(SelectMode::parse("Random").unwrap(), SelectMode::Random);
    assert_eq!(parse_mode(" random").unwrap_err(), ModeError::Unknown);
}

#[test]
fn unknown_placeholder_and_unclosed_braces_stay() {
    assert_eq!(render_template("a{{foo}}b"), "a{{foo}}b");
    assert_eq!(render_template("x{{random.uuid"), "x{{random.uuid");
    assert_eq!(render_template("{{}}"), "{{}}");
}

#[test]
fn string_length_defaults_to_eight() {
    assert_eq!(parse_len("8)"), 8);
    assert_eq!(parse_len(" 12 ))"), 12);
    assert_eq!(parse_len("x)"), 8);
    assert_eq!(parse_len("-3)"), 8);
    assert_eq!(parse_len("+4)"), 4);
    let out = render_template("{{random.string(abc)}}");
    assert_eq!(out.len(), 8);
    assert!(out.chars().all(|c| c.is_ascii_alphanumeric()));
}

#[test]
fn random_string_is_alphanumeric() {
    let s = random_string(40);
    assert_eq!(s.chars().count(), 40);
    assert!(s.chars().all(|c| c.is_ascii_alphanumeric()));
    assert_eq!(random_string(0), "");
}

#[test]
fn int_range_edge_cases() {
    assert_eq!(random_int("5,5)"), "5");
    assert_eq!(random_int("9,3)"), "9");
    assert_eq!(random_int("7)"), "7");
    assert_eq!(random_int("x,y)"), "0");
    assert_eq!(random_int("-9223372036854775808)"), "-9223372036854775808");
    let v: i64 = random_int(" -3 , -1 )").parse().unwrap();
    assert!((-3..=-1).contains(&v));
    let v: i64 = random_int("0,1,99)").parse().unwrap();
    assert!((0..=1).contains(&v));
}

#[test]
fn uuid_text_from_bytes() {
    let bytes = [
        0x00, 0x11, 0x22, 0x33, 0x44, 0x55, 0xff, 0x77, 0xff, 0x99, 0xaa, 0xbb, 0xcc, 0xdd, 0xee,
        0x0f,
    ];
    assert_eq!(uuid_from_bytes(bytes), "00112233-4455-4f77-bf99-aabbccddee0f");
}

#[test]
fn random_uuid_has_version_and_variant() {
    let u = random_uuid();
    assert_eq!(u.len(), 36);
    let parts: Vec<&str> = u.split('-').collect();
    assert_eq!(parts.iter().map(|p| p.len()).collect::<Vec<_>>(), vec![8, 4, 4, 4, 12]);
    assert!(parts[2].starts_with('4'));
    assert!(matches!(parts[3].as_bytes()[0], b'8' | b'9' | b'a' | b'b'));
    assert!(u.chars().all(|c| c == '-' || c.is_ascii_hexdigit() && !c.is_ascii_uppercase()));
}

#[test]
fn email_shape() {
    assert_eq!(email_from_parts("abc", "def", 3), "abc@def.io");
    let e = random_email();
    let (user, rest) = e.split_once('@').unwrap();
    let (domain, tld) = rest.split_once('.').unwrap();
    assert_eq!(user.len(), 8);
    assert_eq!(domain.len(), 6);
    assert!(["com", "net", "org", "io", "cn"].contains(&tld));
}

#[test]
fn several_placeholders_in_one_template() {
    let out = render_template("{{random.int(3,3)}}-{{random.int(4)}}/{{random.email}}");
    assert!(out.starts_with("3-4/"));
    assert!(out.contains('@'));
}

fn template(method: &str, path: &str, body: Option<&str>) -> RequestTemplate {
    RequestTemplate {
        method: method.to_string(),
        path: path.to_string(),
        headers: vec![("K".to_string(), "V".to_string())],
        body: body.map(|b| b.to_string()),
    }
}

#[test]
fn render_joins_relative_paths() {
    let t = template("POST", "/echo", Some("{\"n\":{{random.int(2,2)}}}"));
    let (url, method, headers, body) = t.render("http://host:8080/");
    assert_eq!(url, "http://host:8080/echo");
    assert_eq!(method, "POST");
    assert_eq!(headers, vec![("K".to_string(), "V".to_string())]);
    assert_eq!(body, Some("{\"n\":2}".to_string()));
    let (url, _, _, body) = template("GET", "a/b", None).render("http://h///");
    assert_eq!(url, "http://h/a/b");
    assert_eq!(body, None);
}

#[test]
fn render_keeps_absolute_urls() {
    let (url, _, _, _) = template("GET", "https://other/x", None).render("http://h");
    assert_eq!(url, "https://other/x");
}

#[test]
fn sequential_pick_cycles() {
    let ds = DataSet {
        templates: vec![template("GET", "/a", None), template("GET", "/b", None), template("GET", "/c", None)],
    };
    assert_eq!(ds.pick(SelectMode::Sequential, 0).path, "/a");
    assert_eq!(ds.pick(SelectMode::Sequential, 4).path, "/b");
    assert_eq!(ds.pick(SelectMode::Sequential, 8).path, "/c");
    for _ in 0..20 {
        let p = &ds.pick(SelectMode::Random, 0).path;
        assert!(p == "/a" || p == "/b" || p == "/c");
    }
}

#[test]
fn default_method_is_get() {
    assert_eq!(default_method(), "GET");
}
