use feoco::config::{fold_header_values, fold_whitespace, normalize_config, replace_variables};
use feoco::headers::{create_header_map, HeaderError, Config, HeaderMapType, HeaderPolicy, HeaderSet, Headers};
use feoco::negotiate::{Resolved, Source};
use feoco::response::response_headers;
use feoco::store::Encoding;

fn pair(a: &str, b: &str) -> (String, String) {
    (a.to_string(), b.to_string())
}

fn sample_config() -> Config {
    Config {
        headers: Headers {
            all: vec![pair("cache-control", "max-age=3600"), pair("x-frame-options", "DENY")],
            document: vec![pair("cache-control", "no-cache"), pair("content-security-policy", "default-src 'self'")],
        },
        no_memory: Vec::new(),
    }
}

fn get(set: &HeaderSet, name: &str) -> Option<String> {
    set.get(name).cloned()
}

#[test]
fn header_set_insert_replaces() {
    let mut s = HeaderSet::new();
    s.insert("a".to_string(), "1".to_string());
    s.insert("b".to_string(), "2".to_string());
    s.insert("a".to_string(), "3".to_string());
    assert_eq!(get(&s, "a"), Some("3".to_string()));
    assert_eq!(get(&s, "b"), Some("2".to_string()));
    assert_eq!(get(&s, "c"), None);
    assert_eq!(s.entries().len(), 2);
}

#[test]
fn document_map_prefers_document_values() {
    let c = sample_config();
    let doc = create_header_map(&c, HeaderMapType::Document).unwrap();
    assert_eq!(get(&doc, "cache-control"), Some("no-cache".to_string()));
    assert_eq!(get(&doc, "x-frame-options"), Some("DENY".to_string()));
    assert_eq!(get(&doc, "content-security-policy"), Some("default-src 'self'".to_string()));
    let all = create_header_map(&c, HeaderMapType::All).unwrap();
    assert_eq!(get(&all, "cache-control"), Some("max-age=3600".to_string()));
    assert_eq!(get(&all, "content-security-policy"), None);
}

#[test]
fn effective_headers_by_content_type() {
    let p = HeaderPolicy::new(&sample_config()).unwrap();
    assert_eq!(get(p.effective_headers("text/html"), "cache-control"), Some("no-cache".to_string()));
    assert_eq!(get(p.effective_headers("text/css"), "cache-control"), Some("max-age=3600".to_string()));
    assert_eq!(get(p.effective_headers("text/css"), "content-security-policy"), None);
}

#[test]
fn response_headers_for_html_take_document_values() {
    let p = HeaderPolicy::new(&sample_config()).unwrap();
    let body = b"<html></html>".to_vec();
    let r = Resolved {
        logical_path: "/index.html".to_string(),
        content_type: "text/html".to_string(),
        source: Source::Memory { bytes: &body, encoding: Encoding::Identity },
    };
    let h = response_headers(&p, &r);
    assert_eq!(get(&h, "cache-control"), Some("no-cache".to_string()));
    assert_eq!(get(&h, "content-type"), Some("text/html".to_string()));
    assert_eq!(get(&h, "content-encoding"), None);
}

#[test]
fn response_headers_mark_gzip() {
    let p = HeaderPolicy::new(&sample_config()).unwrap();
    let body = vec![1u8, 2, 3];
    let r = Resolved {
        logical_path: "/app.js".to_string(),
        content_type: "text/javascript".to_string(),
        source: Source::Memory { bytes: &body, encoding: Encoding::Gzip },
    };
    let h = response_headers(&p, &r);
    assert_eq!(get(&h, "content-encoding"), Some("gzip".to_string()));
    assert_eq!(get(&h, "cache-control"), Some("max-age=3600".to_string()));
    let loc = "/public/logo.png".to_string();
    let d = Resolved {
        logical_path: "/logo.png".to_string(),
        content_type: "image/png".to_string(),
        source: Source::Disk { disk_location: &loc },
    };
    let h = response_headers(&p, &d);
    assert_eq!(get(&h, "content-encoding"), None);
    assert_eq!(get(&h, "content-type"), Some("image/png".to_string()));
}

#[test]
fn whitespace_folding() {
    assert_eq!(fold_whitespace("default-src 'self';\n  img-src *"), "default-src 'self'; img-src *");
    assert_eq!(fold_whitespace("a    b"), "a b");
    assert_eq!(fold_whitespace("plain"), "plain");
    assert_eq!(fold_whitespace(""), "");
    assert_eq!(fold_whitespace("\n\nx\n"), " x ");
}

#[test]
fn header_values_folded_in_config() {
    let c = Config {
        headers: Headers { all: vec![pair("a", "x\ny")], document: vec![pair("b", "p  \n q")] },
        no_memory: vec!["/big".to_string()],
    };
    let n = normalize_config(c);
    assert_eq!(n.headers.all, vec![pair("a", "x y")]);
    assert_eq!(n.headers.document, vec![pair("b", "p q")]);
    assert_eq!(n.no_memory, vec!["/big".to_string()]);
    assert_eq!(fold_header_values(&vec![pair("k", "v\tw")]), vec![pair("k", "v w")]);
}

#[test]
fn variables_are_substituted() {
    let vars = vec![pair("HOST", "example.org"), pair("PORT", "8080")];
    assert_eq!(
        replace_variables("origin: https://${HOST}:${PORT}/".to_string(), &vars),
        "origin: https://example.org:8080/"
    );
    assert_eq!(replace_variables("x: ${UNSET}!".to_string(), &vars), "x: !");
    assert_eq!(replace_variables("cost: $5 and ${HOST".to_string(), &vars), "cost: $5 and ${HOST");
    assert_eq!(replace_variables("$HOST".to_string(), &vars), "$HOST");
    assert_eq!(replace_variables(String::new(), &vars), "");
}

#[test]
fn first_binding_of_a_variable_wins() {
    let vars = vec![pair("A", "one"), pair("A", "two")];
    assert_eq!(replace_variables("${A}".to_string(), &vars), "one");
}

#[test]
fn whitespace_folding_covers_all_white_space() {
    assert_eq!(fold_whitespace("a\x0C\x0Cb"), "a b");
    assert_eq!(fold_whitespace("a\x0B \u{A0}\u{3000}b"), "a b");
    assert_eq!(fold_whitespace("a\u{2028}b\u{85}c"), "a b c");
    assert_eq!(fold_whitespace("a\u{200B}b"), "a\u{200B}b");
}

#[test]
fn header_set_remove() {
    let mut s = HeaderSet::new();
    s.insert("a".to_string(), "1".to_string());
    s.insert("b".to_string(), "2".to_string());
    s.remove("a");
    s.remove("zzz");
    assert_eq!(get(&s, "a"), None);
    assert_eq!(get(&s, "b"), Some("2".to_string()));
    assert_eq!(s.entries().len(), 1);
}

#[test]
fn configured_content_encoding_follows_what_is_served() {
    let c = Config {
        headers: Headers { all: vec![pair("content-encoding", "br"), pair("x-a", "1")], document: Vec::new() },
        no_memory: Vec::new(),
    };
    let p = HeaderPolicy::new(&c).unwrap();
    let body = vec![1u8, 2, 3];
    let plain = Resolved {
        logical_path: "/app.js".to_string(),
        content_type: "text/javascript".to_string(),
        source: Source::Memory { bytes: &body, encoding: Encoding::Identity },
    };
    let h = response_headers(&p, &plain);
    assert_eq!(get(&h, "content-encoding"), None);
    assert_eq!(get(&h, "x-a"), Some("1".to_string()));
    let gz = Resolved {
        logical_path: "/app.js".to_string(),
        content_type: "text/javascript".to_string(),
        source: Source::Memory { bytes: &body, encoding: Encoding::Gzip },
    };
    assert_eq!(get(&response_headers(&p, &gz), "content-encoding"), Some("gzip".to_string()));
}

#[test]
fn header_validity() {
    assert!(HeaderPolicy::new(&sample_config()).is_ok());
    let bad_name = Config {
        headers: Headers { all: vec![pair("bad name", "x")], document: Vec::new() },
        no_memory: Vec::new(),
    };
    assert!(HeaderPolicy::new(&bad_name).is_err());
    assert_eq!(create_header_map(&bad_name, HeaderMapType::All).err(), Some(HeaderError::Malformed));
    let bad_value = Config {
        headers: Headers { all: Vec::new(), document: vec![pair("x-a", "line\nbreak")] },
        no_memory: Vec::new(),
    };
    assert!(HeaderPolicy::new(&bad_value).is_err());
    assert!(create_header_map(&bad_value, HeaderMapType::All).is_ok());
    assert_eq!(create_header_map(&bad_value, HeaderMapType::Document).err(), Some(HeaderError::Malformed));
    let twice = Config {
        headers: Headers { all: vec![pair("x-a", "1"), pair("x-a", "2")], document: Vec::new() },
        no_memory: Vec::new(),
    };
    assert!(HeaderPolicy::new(&twice).is_err());
    let utf8_value = Config {
        headers: Headers { all: vec![pair("x-a", "caf\u{e9}\tok")], document: Vec::new() },
        no_memory: Vec::new(),
    };
    assert!(HeaderPolicy::new(&utf8_value).is_ok());
    let utf8_name = Config {
        headers: Headers { all: vec![pair("x-caf\u{e9}", "1")], document: Vec::new() },
        no_memory: Vec::new(),
    };
    assert!(HeaderPolicy::new(&utf8_name).is_err());
    let empty_name = Config {
        headers: Headers { all: vec![pair("", "1")], document: Vec::new() },
        no_memory: Vec::new(),
    };
    assert!(HeaderPolicy::new(&empty_name).is_err());
}

#[test]
fn stray_token_opener_is_text() {
    let vars = vec![pair("HOST", "example.com"), pair("${N", "v")];
    assert_eq!(replace_variables("${${HOST}".to_string(), &vars), "${example.com");
    assert_eq!(replace_variables("${${N}".to_string(), &vars), "${");
    assert_eq!(replace_variables("${}".to_string(), &vars), "${}");
    assert_eq!(replace_variables("a${B{C}d".to_string(), &vars), "a${B{C}d");
}
