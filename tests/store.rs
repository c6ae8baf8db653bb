use std::io::Read;

use feoco::mime::{is_compressible, is_html};
use feoco::negotiate::{accepts_gzip, ResolveError, Source};
use feoco::store::{is_excluded, logical_path, Asset, AssetStore, Encoding, SourceFile, StoreError};

fn file(path: &str, content: &[u8]) -> SourceFile {
    SourceFile { disk_path: path.to_string(), content: Some(content.to_vec()) }
}

fn index_html() -> Vec<u8> {
    let mut v = b"<!doctype html><html><body>".to_vec();
    v.resize(486, b'a');
    v.extend_from_slice(b"</body></html>");
    v
}

fn app_js() -> Vec<u8> {
    b"function main() { console.log('hello hello hello hello hello'); }\nmain();\n".repeat(8)
}

fn example_store() -> AssetStore {
    let no_memory = vec!["/logo.png".to_string()];
    let files = vec![
        file("/public/index.html", &index_html()),
        file("/public/app.js", &app_js()),
        SourceFile { disk_path: "/public/logo.png".to_string(), content: None },
    ];
    AssetStore::build("/public", &no_memory, files).unwrap()
}

fn gunzip(bytes: &[u8]) -> Vec<u8> {
    let mut out = Vec::new();
    flate2::read::GzDecoder::new(bytes).read_to_end(&mut out).unwrap();
    out
}

fn memory_bytes(source: &Source) -> (Vec<u8>, Encoding) {
    match source {
        Source::Memory { bytes, encoding } => ((*bytes).clone(), *encoding),
        Source::Disk { .. } => panic!("expected bytes held in memory"),
    }
}

#[test]
fn logical_path_strips_root() {
    assert_eq!(logical_path("/public", "/public/css/site.css"), "/css/site.css");
    assert_eq!(logical_path("/public", "/other/site.css"), "/other/site.css");
    assert_eq!(logical_path("/public", "/public"), "");
}

#[test]
fn exclusion_matches_substrings() {
    let rules = vec!["/logo.png".to_string(), "videos/".to_string()];
    assert!(is_excluded("/public/logo.png", &rules));
    assert!(is_excluded("/public/videos/intro.mp4", &rules));
    assert!(!is_excluded("/public/app.js", &rules));
    assert!(!is_excluded("/public/app.js", &Vec::new()));
}

#[test]
fn gzip_token_detection() {
    assert!(accepts_gzip("gzip, deflate, br"));
    assert!(accepts_gzip("br;q=1.0, gzip;q=0.8"));
    assert!(!accepts_gzip("deflate, br"));
    assert!(!accepts_gzip(""));
}

#[test]
fn example_scenario_gzip_for_script() {
    let store = example_store();
    let r = store.resolve("/app.js", true).unwrap();
    assert_eq!(r.logical_path, "/app.js");
    assert_eq!(r.content_type, "text/javascript");
    let (bytes, encoding) = memory_bytes(&r.source);
    assert_eq!(encoding, Encoding::Gzip);
    assert_ne!(bytes, app_js());
    assert_eq!(gunzip(&bytes), app_js());
}

#[test]
fn example_scenario_identity_without_gzip() {
    let store = example_store();
    let r = store.resolve("/app.js", false).unwrap();
    let (bytes, encoding) = memory_bytes(&r.source);
    assert_eq!(encoding, Encoding::Identity);
    assert_eq!(bytes, app_js());
}

#[test]
fn example_scenario_missing_route_serves_index() {
    let store = example_store();
    for gz in [false, true] {
        let missing = store.resolve("/missing-route", gz).unwrap();
        let direct = store.resolve("/index.html", gz).unwrap();
        assert_eq!(missing.logical_path, "/index.html");
        assert_eq!(missing.content_type, direct.content_type);
        assert_eq!(memory_bytes(&missing.source), memory_bytes(&direct.source));
    }
    let plain = store.resolve("/missing-route", false).unwrap();
    assert_eq!(memory_bytes(&plain.source).0, index_html());
    assert_eq!(index_html().len(), 500);
}

#[test]
fn example_scenario_disk_asset_never_gzip() {
    let store = example_store();
    for gz in [false, true] {
        let r = store.resolve("/logo.png", gz).unwrap();
        assert_eq!(r.content_type, "image/png");
        match r.source {
            Source::Disk { disk_location } => assert_eq!(disk_location, "/public/logo.png"),
            Source::Memory { .. } => panic!("expected a disk asset"),
        }
    }
}

#[test]
fn gzip_variant_decodes_to_identity() {
    let store = example_store();
    for key in ["/index.html", "/app.js"] {
        match store.lookup(key).unwrap() {
            Asset::InMemory { identity, gzip, .. } => {
                let z = gzip.as_ref().unwrap();
                assert_eq!(&gunzip(z), identity);
            }
            Asset::OnDisk { .. } => panic!("expected an in-memory asset"),
        }
    }
}

#[test]
fn no_gzip_for_non_compressible_type() {
    let no_memory: Vec<String> = Vec::new();
    let files = vec![file("/public/logo.png", b"\x89PNG....")];
    let store = AssetStore::build("/public", &no_memory, files).unwrap();
    match store.lookup("/logo.png").unwrap() {
        Asset::InMemory { content_type, identity, gzip } => {
            assert_eq!(content_type, "image/png");
            assert_eq!(identity, b"\x89PNG....");
            assert!(gzip.is_none());
        }
        Asset::OnDisk { .. } => panic!("expected an in-memory asset"),
    }
    let r = store.resolve("/logo.png", true).unwrap();
    assert_eq!(memory_bytes(&r.source), (b"\x89PNG....".to_vec(), Encoding::Identity));
}

#[test]
fn building_twice_gives_same_results() {
    let a = example_store();
    let b = example_store();
    for key in ["/index.html", "/app.js", "/logo.png", "/nowhere"] {
        for gz in [false, true] {
            let x = a.resolve(key, gz).unwrap();
            let y = b.resolve(key, gz).unwrap();
            assert_eq!(x.logical_path, y.logical_path);
            assert_eq!(x.content_type, y.content_type);
            match (&x.source, &y.source) {
                (Source::Memory { .. }, Source::Memory { .. }) => {
                    assert_eq!(memory_bytes(&x.source), memory_bytes(&y.source))
                }
                (Source::Disk { disk_location: p }, Source::Disk { disk_location: q }) => assert_eq!(p, q),
                _ => panic!("the two stores differ"),
            }
        }
    }
}

#[test]
fn missing_fallback_fails() {
    let no_memory: Vec<String> = Vec::new();
    let files = vec![file("/public/app.js", b"x")];
    let store = AssetStore::build("/public", &no_memory, files).unwrap();
    assert!(!store.has_fallback());
    assert!(example_store().has_fallback());
    assert!(store.resolve("/app.js", false).is_ok());
    assert_eq!(store.resolve("/other", false).err(), Some(ResolveError::FallbackMissing));
}

#[test]
fn missing_content_is_an_error() {
    let no_memory: Vec<String> = Vec::new();
    let files = vec![
        file("/public/index.html", b"<html></html>"),
        SourceFile { disk_path: "/public/app.js".to_string(), content: None },
    ];
    assert_eq!(AssetStore::build("/public", &no_memory, files).err(), Some(StoreError::MissingContent));
}

#[test]
fn empty_snapshot_gives_empty_store() {
    let no_memory = vec!["unused".to_string()];
    let store = AssetStore::build("/public", &no_memory, Vec::new()).unwrap();
    assert!(store.lookup("/index.html").is_none());
    assert_eq!(store.memory_size(), 0);
    assert_eq!(store.compressed_size(), 0);
}

#[test]
fn later_file_replaces_earlier_with_same_key() {
    let no_memory: Vec<String> = Vec::new();
    let files = vec![file("/public/a.txt", b"first"), file("/a.txt", b"second")];
    let store = AssetStore::build("/public", &no_memory, files).unwrap();
    match store.lookup("/a.txt").unwrap() {
        Asset::InMemory { identity, content_type, .. } => {
            assert_eq!(identity, b"second");
            assert_eq!(content_type, "text/plain");
        }
        Asset::OnDisk { .. } => panic!("expected an in-memory asset"),
    }
}

#[test]
fn sizes_are_accumulated() {
    let store = example_store();
    assert_eq!(store.memory_size(), (index_html().len() + app_js().len()) as u128);
    assert!(store.compressed_size() > 0);
}

#[test]
fn disk_asset_isolation() {
    let store = example_store();
    let r = store.resolve("/logo.png", false).unwrap();
    assert!(matches!(r.source, Source::Disk { .. }));
    for key in ["/index.html", "/app.js", "/unknown"] {
        let other = store.resolve(key, true).unwrap();
        assert!(matches!(other.source, Source::Memory { .. }));
    }
}

#[test]
fn compressible_table() {
    for t in ["text/css", "text/javascript", "application/javascript", "text/html", "application/wasm", "image/svg+xml"] {
        assert!(is_compressible(t));
    }
    for t in ["image/png", "application/octet-stream", "video/mp4", "", "text/cs"] {
        assert!(!is_compressible(t));
    }
    assert!(is_html("text/html"));
    assert!(!is_html("text/htm"));
}
