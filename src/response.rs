//! The header section of a response: the policy's headers for the content
//! type, the content type itself, and the encoding where gzip was served.
use vstd::prelude::*;
use crate::headers::{HeaderPolicy, HeaderSet};
use crate::negotiate::{Resolved, ResolvedModel, served_gzip};
use crate::store::Encoding;

verus! {

/// The headers of the response to a resolved request: the encoding is the
/// one actually served, so a configured `content-encoding` never stands.
pub open spec fn response_header_view(policy: HeaderPolicy, r: ResolvedModel) -> Map<Seq<char>, Seq<char>> {
    let base = policy.effective_view(r.content_type).remove("content-encoding"@).insert(
        "content-type"@,
        r.content_type,
    );
    if served_gzip(r) {
        base.insert("content-encoding"@, "gzip"@)
    } else {
        base
    }
}

/// Builds the headers of the response to `resolved`: the policy's headers for
/// its content type but `content-encoding`, then `content-type`, then
/// `content-encoding: gzip` where the gzip variant is served.
pub fn response_headers(policy: &HeaderPolicy, resolved: &Resolved) -> (r: HeaderSet)
    requires
        policy.wf(),
    ensures
        r.wf(),
        r@ == response_header_view(*policy, resolved@),
{
    let effective = policy.effective_headers(resolved.content_type.as_str());
    let mut r = HeaderSet::from_pairs(effective.entries());
    r.remove("content-encoding");
    r.insert(String::from_str("content-type"), resolved.content_type.clone());
    if resolved.encoding() == Encoding::Gzip {
        r.insert(String::from_str("content-encoding"), String::from_str("gzip"));
    }
    r
}

} // verus!
