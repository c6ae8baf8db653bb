//! Properties that hold across the store, negotiation and the header policy.
use vstd::prelude::*;
use crate::compress::{gunzip, gzip_best};
use crate::headers::{Config, HeaderMapType, HeaderPolicy, header_map_of, pair_views, pairs_map};
use crate::mime::{html_type, is_compressible_type};
use crate::negotiate::{ResolvedModel, SourceModel, fallback_path, resolution, served_gzip};
use crate::response::response_header_view;
use crate::store::{AssetModel, AssetStore, Encoding, SourceFile, models_of, store_of, views_of};

verus! {

/// Two stores built from the same snapshot hold the same assets, so every
/// request resolves the same way against both.
pub proof fn lemma_build_idempotent(
    root: Seq<char>,
    no_memory: Seq<String>,
    files: Seq<SourceFile>,
    a: AssetStore,
    b: AssetStore,
    path: Seq<char>,
    accept_gzip: bool,
)
    requires
        a.view() == store_of(root, views_of(no_memory), models_of(files)),
        b.view() == store_of(root, views_of(no_memory), models_of(files)),
    ensures
        a.view() == b.view(),
        resolution(a.view(), path, accept_gzip) == resolution(b.view(), path, accept_gzip),
{
}

/// Decoding the gzip variant of an in-memory asset of a compressible type
/// gives back its identity bytes.
pub proof fn lemma_gzip_variant_decodes(s: AssetStore, path: Seq<char>)
    requires
        s.wf(),
        s.view().contains_key(path),
        s.view()[path] is InMemory,
        is_compressible_type(s.view()[path].content_type()),
    ensures
        s.view()[path]->InMemory_gzip matches Some(z) && gunzip(z) == s.view()[path]->InMemory_identity,
{
    s.lemma_assets_valid(path);
}

/// An in-memory asset whose type is not compressible has no gzip variant.
pub proof fn lemma_no_gzip_unless_compressible(s: AssetStore, path: Seq<char>)
    requires
        s.wf(),
        s.view().contains_key(path),
        s.view()[path] is InMemory,
        !is_compressible_type(s.view()[path].content_type()),
    ensures
        s.view()[path]->InMemory_gzip is None,
{
    s.lemma_assets_valid(path);
}

/// For an in-memory asset of a compressible type, a client that takes gzip
/// gets the gzip variant with `content-encoding: gzip`; any other client gets
/// the identity bytes and no `content-encoding`.
pub proof fn lemma_negotiation(s: AssetStore, policy: HeaderPolicy, path: Seq<char>)
    requires
        s.wf(),
        s.view().contains_key(path),
        s.view()[path] is InMemory,
        is_compressible_type(s.view()[path].content_type()),
    ensures
        ({
            let a = s.view()[path];
            let ct = a.content_type();
            let with_gzip = resolution(s.view(), path, true);
            let without = resolution(s.view(), path, false);
            &&& with_gzip == Some(
                ResolvedModel {
                    logical_path: path,
                    content_type: ct,
                    source: SourceModel::Memory {
                        bytes: gzip_best(a->InMemory_identity),
                        encoding: Encoding::Gzip,
                    },
                },
            )
            &&& response_header_view(policy, with_gzip->0)["content-encoding"@] == "gzip"@
            &&& without == Some(
                ResolvedModel {
                    logical_path: path,
                    content_type: ct,
                    source: SourceModel::Memory {
                        bytes: a->InMemory_identity,
                        encoding: Encoding::Identity,
                    },
                },
            )
            &&& !response_header_view(policy, without->0).contains_key("content-encoding"@)
        }),
{
    s.lemma_assets_valid(path);
    assert(!served_gzip(resolution(s.view(), path, false)->0));
    proof_content_encoding_distinct();
}

/// The two header names that the response adds are different names.
proof fn proof_content_encoding_distinct()
    ensures
        "content-encoding"@ != "content-type"@,
{
    reveal_strlit("content-encoding");
    reveal_strlit("content-type");
    assert("content-encoding"@[8] != "content-type"@[8]);
}

/// A path that the store does not hold resolves, bytes and headers alike,
/// exactly as the fallback document does.
pub proof fn lemma_fallback_routing(
    s: AssetStore,
    policy: HeaderPolicy,
    path: Seq<char>,
    accept_gzip: bool,
)
    requires
        s.wf(),
        !s.view().contains_key(path),
    ensures
        resolution(s.view(), path, accept_gzip) == resolution(s.view(), fallback_path(), accept_gzip),
        resolution(s.view(), path, accept_gzip) matches Some(r) ==> response_header_view(policy, r)
            == response_header_view(policy, resolution(s.view(), fallback_path(), accept_gzip)->0),
{
}

/// In an HTML response, a header that both the document and the general
/// configuration set takes the document value (the two headers that the
/// response sets itself, `content-type` and `content-encoding`, aside).
pub proof fn lemma_document_headers_win(
    config: Config,
    policy: HeaderPolicy,
    r: ResolvedModel,
    name: Seq<char>,
)
    requires
        policy.document_view() == header_map_of(config, HeaderMapType::Document),
        policy.all_view() == header_map_of(config, HeaderMapType::All),
        r.content_type == html_type(),
        pairs_map(pair_views(config.headers.document@)).contains_key(name),
        pairs_map(pair_views(config.headers.all@)).contains_key(name),
        name != "content-type"@,
        name != "content-encoding"@,
    ensures
        response_header_view(policy, r).contains_key(name),
        response_header_view(policy, r)[name] == pairs_map(pair_views(config.headers.document@))[name],
{
}

/// A request reads from disk only the file of the asset it resolves to: a file
/// that goes missing after the build fails only the requests served from it.
pub proof fn lemma_disk_read_confined(s: AssetStore, path: Seq<char>, accept_gzip: bool)
    requires
        s.wf(),
        resolution(s.view(), path, accept_gzip) is Some,
    ensures
        ({
            let r = resolution(s.view(), path, accept_gzip)->0;
            &&& s.view().contains_key(r.logical_path)
            &&& match r.source {
                SourceModel::Disk { disk_location } => s.view()[r.logical_path] == AssetModel::OnDisk {
                    content_type: r.content_type,
                    disk_location,
                },
                SourceModel::Memory { .. } => s.view()[r.logical_path] is InMemory,
            }
        }),
{
}

} // verus!
