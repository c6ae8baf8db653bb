//! Content types: the guess made from a path's extension, and the table of
//! types that are worth storing compressed.
use vstd::prelude::*;
use crate::text::str_eq;

verus! {

/// The content type that the extension table assigns to a path.
pub uninterp spec fn guessed_type(path: Seq<char>) -> Seq<char>;

/// Relies on `mime_guess::from_path(..).first_or_octet_stream()`: the first media
/// type registered for the path's extension, or `application/octet-stream`. The
/// table is static, so the result depends on the path alone.
#[verifier::external_body]
pub(crate) fn guess_content_type(path: &str) -> (r: String)
    ensures
        r@ == guessed_type(path@),
{
    String::from(mime_guess::from_path(path).first_or_octet_stream().as_ref())
}

/// The content type served as an HTML document.
pub open spec fn html_type() -> Seq<char> {
    "text/html"@
}

/// The content types that get a precomputed gzip variant.
pub open spec fn compressible_types() -> Seq<Seq<char>> {
    seq![
        "text/css"@,
        "application/javascript"@,
        "text/html"@,
        "image/svg+xml"@,
        "text/xml"@,
        "text/plain"@,
        "application/json"@,
        "application/yaml"@,
        "application/yml"@,
        "application/toml"@,
        "text/markdown"@,
        "application/wasm"@,
        "application/json-p"@,
        "text/javascript"@,
    ]
}

/// `content_type` is in the compressible table.
pub open spec fn is_compressible_type(content_type: Seq<char>) -> bool {
    compressible_types().contains(content_type)
}

/// Whether `content_type` is in the compressible table.
pub fn is_compressible(content_type: &str) -> (r: bool)
    ensures
        r == is_compressible_type(content_type@),
{
    let table: [&str; 14] = [
        "text/css",
        "application/javascript",
        "text/html",
        "image/svg+xml",
        "text/xml",
        "text/plain",
        "application/json",
        "application/yaml",
        "application/yml",
        "application/toml",
        "text/markdown",
        "application/wasm",
        "application/json-p",
        "text/javascript",
    ];
    assert(table@.map_values(|s: &str| s@) =~= compressible_types());
    let mut i: usize = 0;
    while i < 14
        invariant
            i <= 14,
            table@.map_values(|s: &str| s@) == compressible_types(),
            forall|k: int| 0 <= k < i ==> compressible_types()[k] != content_type@,
        decreases 14 - i,
    {
        if str_eq(content_type, table[i]) {
            assert(compressible_types()[i as int] == content_type@);
            return true;
        }
        i = i + 1;
    }
    false
}

/// Whether `content_type` is the HTML document type.
pub fn is_html(content_type: &str) -> (r: bool)
    ensures
        r == (content_type@ == html_type()),
{
    str_eq(content_type, "text/html")
}

} // verus!
