//! Resolving a request path against the store: fallback to the application
//! document for unknown paths, and choice of the encoding to serve.
use vstd::prelude::*;
use crate::store::{Asset, AssetModel, AssetStore, Encoding};
use crate::text::{chars_of, contains_exec, contains_seq};

verus! {

/// The document served for any path that the store does not hold.
pub open spec fn fallback_path() -> Seq<char> {
    "/index.html"@
}

/// Where the bytes of a resolved request come from.
#[derive(Debug)]
pub enum Source<'a> {
    /// Bytes held in memory, in the given encoding.
    Memory { bytes: &'a Vec<u8>, encoding: Encoding },
    /// A file to read from disk, served as identity.
    Disk { disk_location: &'a String },
}

/// A resolved request: the logical path actually served, its content type,
/// and where its bytes come from.
#[derive(Debug)]
pub struct Resolved<'a> {
    pub logical_path: String,
    pub content_type: String,
    pub source: Source<'a>,
}

/// Where the bytes of a resolved request come from, as plain sequences.
pub enum SourceModel {
    Memory { bytes: Seq<u8>, encoding: Encoding },
    Disk { disk_location: Seq<char> },
}

/// A resolved request, as plain sequences.
pub struct ResolvedModel {
    pub logical_path: Seq<char>,
    pub content_type: Seq<char>,
    pub source: SourceModel,
}

impl<'a> View for Source<'a> {
    type V = SourceModel;

    open spec fn view(&self) -> SourceModel {
        match self {
            Source::Memory { bytes, encoding } => SourceModel::Memory { bytes: bytes@, encoding: *encoding },
            Source::Disk { disk_location } => SourceModel::Disk { disk_location: disk_location@ },
        }
    }
}

impl<'a> View for Resolved<'a> {
    type V = ResolvedModel;

    open spec fn view(&self) -> ResolvedModel {
        ResolvedModel {
            logical_path: self.logical_path@,
            content_type: self.content_type@,
            source: self.source@,
        }
    }
}

/// Why a request could not be resolved.
#[derive(Clone, Copy, Debug, PartialEq, Eq, Structural)]
pub enum ResolveError {
    /// The path is unknown and the fallback document is not in the store either.
    FallbackMissing,
}

/// The logical path served for `path`: itself where the store holds it, else the fallback.
pub open spec fn target_path(m: Map<Seq<char>, AssetModel>, path: Seq<char>) -> Seq<char> {
    if m.contains_key(path) {
        path
    } else {
        fallback_path()
    }
}

/// What serving the asset under `logical` gives: disk assets as identity, memory
/// assets as their gzip variant where the client takes gzip and one exists.
pub open spec fn serve(logical: Seq<char>, a: AssetModel, accept_gzip: bool) -> ResolvedModel {
    match a {
        AssetModel::InMemory { content_type, identity, gzip } => ResolvedModel {
            logical_path: logical,
            content_type,
            source: if accept_gzip && gzip is Some {
                SourceModel::Memory { bytes: gzip->0, encoding: Encoding::Gzip }
            } else {
                SourceModel::Memory { bytes: identity, encoding: Encoding::Identity }
            },
        },
        AssetModel::OnDisk { content_type, disk_location } => ResolvedModel {
            logical_path: logical,
            content_type,
            source: SourceModel::Disk { disk_location },
        },
    }
}

/// The result of resolving `path`; `None` where neither it nor the fallback is held.
pub open spec fn resolution(m: Map<Seq<char>, AssetModel>, path: Seq<char>, accept_gzip: bool) -> Option<
    ResolvedModel,
> {
    let t = target_path(m, path);
    if m.contains_key(t) {
        Some(serve(t, m[t], accept_gzip))
    } else {
        None
    }
}

/// The response was served from the gzip variant.
pub open spec fn served_gzip(r: ResolvedModel) -> bool {
    r.source matches SourceModel::Memory { encoding, .. } && encoding == Encoding::Gzip
}

/// Whether an `Accept-Encoding` value admits gzip: it contains the token `gzip`.
pub fn accepts_gzip(accept_encoding: &str) -> (r: bool)
    ensures
        r == contains_seq(accept_encoding@, "gzip"@),
{
    let hay = chars_of(accept_encoding);
    let needle = chars_of("gzip");
    contains_exec(&hay, &needle)
}

/// Serves the asset `a`, found under `logical`.
fn serve_asset<'a>(logical: String, a: &'a Asset, accept_gzip: bool) -> (r: Resolved<'a>)
    ensures
        r@ == serve(logical@, a@, accept_gzip),
{
    match a {
        Asset::InMemory { content_type, identity, gzip } => {
            let source = match gzip {
                Some(z) => {
                    if accept_gzip {
                        Source::Memory { bytes: z, encoding: Encoding::Gzip }
                    } else {
                        Source::Memory { bytes: identity, encoding: Encoding::Identity }
                    }
                },
                None => Source::Memory { bytes: identity, encoding: Encoding::Identity },
            };
            Resolved { logical_path: logical, content_type: content_type.clone(), source }
        },
        Asset::OnDisk { content_type, disk_location } => Resolved {
            logical_path: logical,
            content_type: content_type.clone(),
            source: Source::Disk { disk_location },
        },
    }
}

impl<'a> Resolved<'a> {
    /// The encoding of the bytes served: gzip only for a gzip variant.
    pub fn encoding(&self) -> (r: Encoding)
        ensures
            (r == Encoding::Gzip) == served_gzip(self@),
    {
        match &self.source {
            Source::Memory { encoding, .. } => *encoding,
            Source::Disk { .. } => Encoding::Identity,
        }
    }
}

impl AssetStore {
    /// Whether the store holds the fallback document, without which unknown
    /// paths cannot be served.
    pub fn has_fallback(&self) -> (r: bool)
        requires
            self.wf(),
        ensures
            r == self.view().contains_key(fallback_path()),
    {
        self.lookup("/index.html").is_some()
    }

    /// Resolves a request path: the asset under `path`, or under the fallback
    /// document where the store does not hold `path`. A memory asset is served
    /// gzip-encoded exactly when the client takes gzip and the asset has a gzip
    /// variant; a disk asset is always served as identity.
    pub fn resolve(&self, path: &str, accept_gzip: bool) -> (r: Result<Resolved<'_>, ResolveError>)
        requires
            self.wf(),
        ensures
            match r {
                Ok(res) => resolution(self.view(), path@, accept_gzip) == Some(res@),
                Err(e) => e == ResolveError::FallbackMissing && resolution(self.view(), path@, accept_gzip) is None,
            },
    {
        match self.lookup(path) {
            Some(a) => Ok(serve_asset(String::from_str(path), a, accept_gzip)),
            None => {
                let fallback = "/index.html";
                match self.lookup(fallback) {
                    Some(a) => Ok(serve_asset(String::from_str(fallback), a, accept_gzip)),
                    None => Err(ResolveError::FallbackMissing),
                }
            },
        }
    }
}

} // verus!
