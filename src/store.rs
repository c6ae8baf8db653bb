//! The asset store: built once from a snapshot of the asset directory, then
//! read-only. Each logical path maps to one asset, held in memory (with a gzip
//! variant when its content type is compressible) or left on disk.
use vstd::prelude::*;
use crate::compress::{gzip_best, gunzip, gzip_compress};
use crate::index::{PathIndex, index_entries, index_get, index_insert, index_new};
use crate::mime::{guess_content_type, guessed_type, is_compressible, is_compressible_type};
use crate::text::{chars_of, contains_exec, contains_seq, occurs_at, occurs_at_exec};

verus! {

/// The encoding of the bytes served for an asset.
#[derive(Clone, Copy, Debug, PartialEq, Eq, Structural)]
pub enum Encoding {
    Identity,
    Gzip,
}

/// One asset of the store.
#[derive(Debug)]
pub enum Asset {
    /// Held in memory; `gzip` is present exactly when the content type is compressible.
    InMemory { content_type: String, identity: Vec<u8>, gzip: Option<Vec<u8>> },
    /// Left on disk and read again for each request.
    OnDisk { content_type: String, disk_location: String },
}

/// What an asset holds, as plain sequences.
pub enum AssetModel {
    InMemory { content_type: Seq<char>, identity: Seq<u8>, gzip: Option<Seq<u8>> },
    OnDisk { content_type: Seq<char>, disk_location: Seq<char> },
}

impl AssetModel {
    /// The content type of the asset, wherever it resides.
    pub open spec fn content_type(self) -> Seq<char> {
        match self {
            AssetModel::InMemory { content_type, .. } => content_type,
            AssetModel::OnDisk { content_type, .. } => content_type,
        }
    }
}

impl View for Asset {
    type V = AssetModel;

    open spec fn view(&self) -> AssetModel {
        match self {
            Asset::InMemory { content_type, identity, gzip } => AssetModel::InMemory {
                content_type: content_type@,
                identity: identity@,
                gzip: match gzip {
                    Some(z) => Some(z@),
                    None => None,
                },
            },
            Asset::OnDisk { content_type, disk_location } => AssetModel::OnDisk {
                content_type: content_type@,
                disk_location: disk_location@,
            },
        }
    }
}

/// A file found under the asset root: its path on disk, and its bytes where
/// they were read (files that stay on disk are not read).
pub struct SourceFile {
    pub disk_path: String,
    pub content: Option<Vec<u8>>,
}

/// A file of the snapshot, as plain sequences.
pub struct SourceFileModel {
    pub disk_path: Seq<char>,
    pub content: Option<Seq<u8>>,
}

impl View for SourceFile {
    type V = SourceFileModel;

    open spec fn view(&self) -> SourceFileModel {
        SourceFileModel {
            disk_path: self.disk_path@,
            content: match self.content {
                Some(c) => Some(c@),
                None => None,
            },
        }
    }
}

/// Why the store could not be built.
#[derive(Clone, Copy, Debug, PartialEq, Eq, Structural)]
pub enum StoreError {
    /// A file that belongs in memory came without its bytes.
    MissingContent,
}

/// The logical path of a file: its disk path with the root prefix removed. A
/// path outside the root keeps its full form.
pub open spec fn strip_root(root: Seq<char>, disk_path: Seq<char>) -> Seq<char> {
    if occurs_at(disk_path, root, 0) {
        disk_path.subrange(root.len() as int, disk_path.len() as int)
    } else {
        disk_path
    }
}

/// A file stays on disk when its path contains one of the exclusion rules.
pub open spec fn excluded(rules: Seq<Seq<char>>, disk_path: Seq<char>) -> bool {
    exists|i: int| 0 <= i < rules.len() && contains_seq(disk_path, #[trigger] rules[i])
}

/// The views of a list of strings.
pub open spec fn views_of(v: Seq<String>) -> Seq<Seq<char>> {
    v.map_values(|s: String| s@)
}

/// The in-memory asset made from `content` under logical path `logical`.
pub open spec fn memory_asset(logical: Seq<char>, content: Seq<u8>) -> AssetModel {
    let ct = guessed_type(logical);
    AssetModel::InMemory {
        content_type: ct,
        identity: content,
        gzip: if is_compressible_type(ct) {
            Some(gzip_best(content))
        } else {
            None
        },
    }
}

/// The asset that a file of the snapshot becomes.
pub open spec fn asset_of(root: Seq<char>, rules: Seq<Seq<char>>, f: SourceFileModel) -> AssetModel {
    let logical = strip_root(root, f.disk_path);
    if excluded(rules, f.disk_path) {
        AssetModel::OnDisk { content_type: guessed_type(logical), disk_location: f.disk_path }
    } else {
        memory_asset(logical, f.content.unwrap_or(Seq::empty()))
    }
}

/// The store built from a snapshot: each file in turn, a later file replacing
/// an earlier one with the same logical path.
pub open spec fn store_of(
    root: Seq<char>,
    rules: Seq<Seq<char>>,
    files: Seq<SourceFileModel>,
) -> Map<Seq<char>, AssetModel>
    decreases files.len(),
{
    if files.len() == 0 {
        Map::empty()
    } else {
        let f = files.last();
        store_of(root, rules, files.drop_last()).insert(
            strip_root(root, f.disk_path),
            asset_of(root, rules, f),
        )
    }
}

/// The views of a snapshot's files.
pub open spec fn models_of(files: Seq<SourceFile>) -> Seq<SourceFileModel> {
    files.map_values(|f: SourceFile| f@)
}

/// The logical path of a file: `disk_path` with the prefix `root` removed, or
/// the whole of `disk_path` where it does not start with `root`.
pub fn logical_path(root: &str, disk_path: &str) -> (r: String)
    ensures
        r@ == strip_root(root@, disk_path@),
{
    let p = chars_of(disk_path);
    let q = chars_of(root);
    if occurs_at_exec(&p, &q, 0) {
        String::from_str(disk_path.substring_char(q.len(), p.len()))
    } else {
        String::from_str(disk_path)
    }
}

/// Whether a file stays on disk: its path contains one of the rules.
pub fn is_excluded(disk_path: &str, no_memory: &Vec<String>) -> (r: bool)
    ensures
        r == excluded(views_of(no_memory@), disk_path@),
{
    let p = chars_of(disk_path);
    let mut i: usize = 0;
    while i < no_memory.len()
        invariant
            p@ == disk_path@,
            i <= no_memory@.len(),
            forall|k: int| 0 <= k < i ==> !contains_seq(disk_path@, #[trigger] views_of(no_memory@)[k]),
        decreases no_memory.len() - i,
    {
        let rule = chars_of(no_memory[i].as_str());
        if contains_exec(&p, &rule) {
            assert(contains_seq(disk_path@, views_of(no_memory@)[i as int]));
            return true;
        }
        i = i + 1;
    }
    false
}

/// `n`, capped at the largest `u128`.
pub open spec fn capped(n: int) -> u128 {
    if n > u128::MAX {
        u128::MAX
    } else {
        n as u128
    }
}

/// The number of identity bytes that a snapshot puts in memory.
pub open spec fn memory_bytes(rules: Seq<Seq<char>>, files: Seq<SourceFileModel>) -> nat
    decreases files.len(),
{
    if files.len() == 0 {
        0
    } else {
        let f = files.last();
        memory_bytes(rules, files.drop_last()) + if excluded(rules, f.disk_path) {
            0
        } else {
            f.content.unwrap_or(Seq::empty()).len()
        }
    }
}

/// The number of gzip bytes that a snapshot puts in memory.
pub open spec fn compressed_bytes(
    root: Seq<char>,
    rules: Seq<Seq<char>>,
    files: Seq<SourceFileModel>,
) -> nat
    decreases files.len(),
{
    if files.len() == 0 {
        0
    } else {
        let f = files.last();
        compressed_bytes(root, rules, files.drop_last()) + if !excluded(rules, f.disk_path)
            && is_compressible_type(guessed_type(strip_root(root, f.disk_path))) {
            gzip_best(f.content.unwrap_or(Seq::empty())).len()
        } else {
            0
        }
    }
}

/// Some file that belongs in memory came without its bytes.
pub open spec fn missing_content(rules: Seq<Seq<char>>, files: Seq<SourceFileModel>) -> bool {
    exists|i: int|
        0 <= i < files.len() && !excluded(rules, #[trigger] files[i].disk_path)
            && files[i].content is None
}

/// An asset as the store keeps it under `logical`: its content type guessed from
/// the logical path, and its gzip variant present exactly when that type is
/// compressible, holding the compressed identity bytes.
pub open spec fn asset_valid(logical: Seq<char>, a: AssetModel) -> bool {
    match a {
        AssetModel::InMemory { content_type, identity, gzip } => {
            &&& content_type == guessed_type(logical)
            &&& a == memory_asset(logical, identity)
            &&& gzip matches Some(z) ==> gunzip(z) == identity
        },
        AssetModel::OnDisk { content_type, .. } => content_type == guessed_type(logical),
    }
}

/// The store: an index from logical path to slot, and the assets by slot.
pub struct AssetStore {
    index: PathIndex,
    assets: Vec<Asset>,
    memory_size: u128,
    compressed_size: u128,
}

impl AssetStore {
    /// Every logical path of the store, with its asset.
    pub closed spec fn view(&self) -> Map<Seq<char>, AssetModel> {
        Map::new(
            |k: Seq<char>| index_entries(self.index).contains_key(k),
            |k: Seq<char>| self.assets@[index_entries(self.index)[k] as int]@,
        )
    }

    /// The running total of identity bytes held in memory.
    pub closed spec fn memory_total(&self) -> u128 {
        self.memory_size
    }

    /// The running total of gzip bytes held in memory.
    pub closed spec fn compressed_total(&self) -> u128 {
        self.compressed_size
    }

    /// Each indexed slot exists, and each asset is as the store keeps it.
    pub closed spec fn wf(&self) -> bool {
        &&& forall|k: Seq<char>| #[trigger] index_entries(self.index).contains_key(k)
            ==> index_entries(self.index)[k] < self.assets@.len()
        &&& forall|k: Seq<char>| #[trigger] self.view().contains_key(k)
            ==> asset_valid(k, self.view()[k])
    }

    /// Every asset of a well-formed store is as the store keeps it.
    pub proof fn lemma_assets_valid(&self, k: Seq<char>)
        requires
            self.wf(),
            self.view().contains_key(k),
        ensures
            asset_valid(k, self.view()[k]),
    {
    }

    /// An empty store.
    fn empty() -> (r: AssetStore)
        ensures
            r.wf(),
            r.view() == Map::<Seq<char>, AssetModel>::empty(),
            r.memory_total() == 0,
            r.compressed_total() == 0,
    {
        let r = AssetStore { index: index_new(), assets: Vec::new(), memory_size: 0, compressed_size: 0 };
        assert(r.view() =~= Map::<Seq<char>, AssetModel>::empty());
        r
    }

    /// Adds `asset` under `logical`, replacing what was there.
    fn put(&mut self, logical: String, asset: Asset)
        requires
            old(self).wf(),
            asset_valid(logical@, asset@),
        ensures
            final(self).wf(),
            final(self).view() == old(self).view().insert(logical@, asset@),
            final(self).memory_total() == old(self).memory_total(),
            final(self).compressed_total() == old(self).compressed_total(),
    {
        let ghost old_view = self.view();
        let slot = self.assets.len();
        self.assets.push(asset);
        index_insert(&mut self.index, logical, slot);
        assert(self.view() =~= old_view.insert(logical@, asset@));
    }

    /// Builds the store from a snapshot of the asset root: each file whose disk
    /// path contains one of `no_memory` is recorded as left on disk, every other
    /// file is held in memory with its content type and, where that type is
    /// compressible, its gzip variant. A later file replaces an earlier one with
    /// the same logical path.
    pub fn build(root: &str, no_memory: &Vec<String>, files: Vec<SourceFile>) -> (r: Result<
        AssetStore,
        StoreError,
    >)
        ensures
            match r {
                Ok(s) => {
                    &&& s.wf()
                    &&& s.view() == store_of(root@, views_of(no_memory@), models_of(files@))
                    &&& s.memory_total() == capped(memory_bytes(views_of(no_memory@), models_of(files@)) as int)
                    &&& s.compressed_total() == capped(
                        compressed_bytes(root@, views_of(no_memory@), models_of(files@)) as int,
                    )
                },
                Err(e) => e == StoreError::MissingContent,
            },
            r is Ok <==> !missing_content(views_of(no_memory@), models_of(files@)),
    {
        let ghost rules = views_of(no_memory@);
        let ghost fs = models_of(files@);
        let mut i: usize = 0;
        while i < files.len()
            invariant
                i <= files@.len(),
                fs == models_of(files@),
                rules == views_of(no_memory@),
                forall|k: int| 0 <= k < i ==> !excluded(rules, #[trigger] fs[k].disk_path) ==> fs[k].content is Some,
            decreases files.len() - i,
        {
            if !is_excluded(files[i].disk_path.as_str(), no_memory) && files[i].content.is_none() {
                assert(!excluded(rules, fs[i as int].disk_path) && fs[i as int].content is None);
                return Err(StoreError::MissingContent);
            }
            i = i + 1;
        }
        let mut store = AssetStore::empty();
        for f in it: files
            invariant
                it.seq() == files@,
                fs == models_of(files@),
                rules == views_of(no_memory@),
                !missing_content(rules, fs),
                store.wf(),
                store.view() == store_of(root@, rules, fs.take(it.index() as int)),
                store.memory_total() == capped(memory_bytes(rules, fs.take(it.index() as int)) as int),
                store.compressed_total() == capped(compressed_bytes(root@, rules, fs.take(it.index() as int)) as int),
        {
            assert(fs.take(it.index() + 1).drop_last() =~= fs.take(it.index() as int));
            let logical = logical_path(root, f.disk_path.as_str());
            if is_excluded(f.disk_path.as_str(), no_memory) {
                let content_type = guess_content_type(logical.as_str());
                let asset = Asset::OnDisk { content_type, disk_location: f.disk_path };
                store.put(logical, asset);
            } else {
                assert(f@ == fs[it.index() as int]);
                assert(!(!excluded(rules, fs[it.index() as int].disk_path) && fs[it.index() as int].content is None));
                let content = match f.content {
                    Some(c) => c,
                    None => {
                        assert(false);
                        Vec::new()
                    },
                };
                let content_type = guess_content_type(logical.as_str());
                store.memory_size = store.memory_size.saturating_add(content.len() as u128);
                if is_compressible(content_type.as_str()) {
                    let z = gzip_compress(content.as_slice());
                    store.compressed_size = store.compressed_size.saturating_add(z.len() as u128);
                    let asset = Asset::InMemory { content_type, identity: content, gzip: Some(z) };
                    store.put(logical, asset);
                } else {
                    let asset = Asset::InMemory { content_type, identity: content, gzip: None };
                    store.put(logical, asset);
                }
            }
        }
        assert(fs.take(fs.len() as int) =~= fs);
        Ok(store)
    }

    /// The number of bytes held in memory uncompressed (saturating).
    pub fn memory_size(&self) -> (r: u128)
        ensures
            r == self.memory_total(),
    {
        self.memory_size
    }

    /// The number of bytes held in memory as gzip variants (saturating).
    pub fn compressed_size(&self) -> (r: u128)
        ensures
            r == self.compressed_total(),
    {
        self.compressed_size
    }

    /// The asset stored under `logical_path`, if any.
    pub fn lookup(&self, logical_path: &str) -> (r: Option<&Asset>)
        requires
            self.wf(),
        ensures
            match r {
                Some(a) => self.view().contains_key(logical_path@) && a@ == self.view()[logical_path@],
                None => !self.view().contains_key(logical_path@),
            },
    {
        match index_get(&self.index, logical_path) {
            Some(slot) => Some(&self.assets[slot]),
            None => None,
        }
    }
}

} // verus!
