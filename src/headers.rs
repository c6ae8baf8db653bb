//! Response header sets and the policy that picks them by content type.
use vstd::prelude::*;
use crate::mime::{html_type, is_html};
use crate::text::str_eq;

verus! {

/// The map that a list of name/value pairs gives, a later pair replacing an
/// earlier one with the same name.
pub open spec fn pairs_map(e: Seq<(Seq<char>, Seq<char>)>) -> Map<Seq<char>, Seq<char>>
    decreases e.len(),
{
    if e.len() == 0 {
        Map::empty()
    } else {
        pairs_map(e.drop_last()).insert(e.last().0, e.last().1)
    }
}

/// The views of a list of string pairs.
pub open spec fn pair_views(e: Seq<(String, String)>) -> Seq<(Seq<char>, Seq<char>)> {
    e.map_values(|p: (String, String)| (p.0@, p.1@))
}

/// No two pairs share a name.
pub open spec fn names_unique(e: Seq<(Seq<char>, Seq<char>)>) -> bool {
    forall|i: int, j: int| 0 <= i < j < e.len() ==> #[trigger] e[i].0 != #[trigger] e[j].0
}

/// Replacing the value of a pair, where names are unique, replaces it in the map.
pub proof fn lemma_pairs_update(e: Seq<(Seq<char>, Seq<char>)>, i: int, v: Seq<char>)
    requires
        names_unique(e),
        0 <= i < e.len(),
    ensures
        pairs_map(e.update(i, (e[i].0, v))) == pairs_map(e).insert(e[i].0, v),
    decreases e.len(),
{
    let u = e.update(i, (e[i].0, v));
    if i == e.len() - 1 {
        assert(u.drop_last() =~= e.drop_last());
        assert(pairs_map(u) =~= pairs_map(e).insert(e[i].0, v));
    } else {
        let d = e.drop_last();
        assert(u.drop_last() =~= d.update(i, (e[i].0, v)));
        assert(names_unique(d));
        lemma_pairs_update(d, i, v);
        assert(e[i].0 != e.last().0);
        assert(pairs_map(u) =~= pairs_map(e).insert(e[i].0, v));
    }
}

/// Where names are unique, the map holds each pair as it stands.
pub proof fn lemma_pairs_lookup(e: Seq<(Seq<char>, Seq<char>)>, i: int)
    requires
        names_unique(e),
        0 <= i < e.len(),
    ensures
        pairs_map(e).contains_key(e[i].0),
        pairs_map(e)[e[i].0] == e[i].1,
    decreases e.len(),
{
    if i < e.len() - 1 {
        let d = e.drop_last();
        assert(names_unique(d));
        lemma_pairs_lookup(d, i);
        assert(e[i].0 != e.last().0);
    }
}

/// The names of the map are those of the pairs.
pub proof fn lemma_pairs_names(e: Seq<(Seq<char>, Seq<char>)>, k: Seq<char>)
    ensures
        pairs_map(e).contains_key(k) <==> exists|i: int| 0 <= i < e.len() && #[trigger] e[i].0 == k,
    decreases e.len(),
{
    if e.len() > 0 {
        let d = e.drop_last();
        lemma_pairs_names(d, k);
        if pairs_map(e).contains_key(k) {
            if k != e.last().0 {
                let i = choose|i: int| 0 <= i < d.len() && #[trigger] d[i].0 == k;
                assert(e[i].0 == k);
            } else {
                assert(e[e.len() - 1].0 == k);
            }
        }
        if exists|i: int| 0 <= i < e.len() && #[trigger] e[i].0 == k {
            let i = choose|i: int| 0 <= i < e.len() && #[trigger] e[i].0 == k;
            if i < e.len() - 1 {
                assert(d[i].0 == k);
            }
        }
    }
}

/// Taking out a pair, where names are unique, takes its name out of the map.
pub proof fn lemma_pairs_remove(e: Seq<(Seq<char>, Seq<char>)>, i: int)
    requires
        names_unique(e),
        0 <= i < e.len(),
    ensures
        names_unique(e.remove(i)),
        pairs_map(e.remove(i)) == pairs_map(e).remove(e[i].0),
    decreases e.len(),
{
    let u = e.remove(i);
    let d = e.drop_last();
    assert(names_unique(d));
    assert forall|a: int, b: int| 0 <= a < b < u.len() implies #[trigger] u[a].0 != #[trigger] u[b].0 by {
        let a2 = if a < i { a } else { a + 1 };
        let b2 = if b < i { b } else { b + 1 };
        assert(u[a] == e[a2] && u[b] == e[b2]);
    }
    if i == e.len() - 1 {
        assert(u =~= d);
        lemma_pairs_names(d, e[i].0);
        if pairs_map(d).contains_key(e[i].0) {
            let j = choose|j: int| 0 <= j < d.len() && #[trigger] d[j].0 == e[i].0;
            assert(e[j].0 == e[i].0);
        }
        assert(pairs_map(u) =~= pairs_map(e).remove(e[i].0));
    } else {
        assert(u.drop_last() =~= d.remove(i));
        assert(u.last() == e.last());
        lemma_pairs_remove(d, i);
        assert(e[i].0 != e.last().0);
        assert(pairs_map(u) =~= pairs_map(e).remove(e[i].0));
    }
}

/// A mapping from header name to header value.
#[derive(Debug)]
pub struct HeaderSet {
    entries: Vec<(String, String)>,
}

impl View for HeaderSet {
    type V = Map<Seq<char>, Seq<char>>;

    closed spec fn view(&self) -> Map<Seq<char>, Seq<char>> {
        pairs_map(pair_views(self.entries@))
    }
}

impl HeaderSet {
    /// No two entries share a name.
    pub closed spec fn wf(&self) -> bool {
        names_unique(pair_views(self.entries@))
    }

    /// An empty set.
    pub fn new() -> (r: HeaderSet)
        ensures
            r.wf(),
            r@ == Map::<Seq<char>, Seq<char>>::empty(),
    {
        let r = HeaderSet { entries: Vec::new() };
        assert(pair_views(r.entries@) =~= Seq::<(Seq<char>, Seq<char>)>::empty());
        r
    }

    /// Sets `name` to `value`, replacing any earlier value of `name`.
    pub fn insert(&mut self, name: String, value: String)
        requires
            old(self).wf(),
        ensures
            final(self).wf(),
            final(self)@ == old(self)@.insert(name@, value@),
    {
        let ghost e = pair_views(self.entries@);
        let mut i: usize = 0;
        while i < self.entries.len()
            invariant
                e == pair_views(self.entries@),
                e == pair_views(old(self).entries@),
                names_unique(e),
                i <= self.entries@.len(),
                forall|k: int| 0 <= k < i ==> #[trigger] e[k].0 != name@,
            decreases self.entries.len() - i,
        {
            if str_eq(self.entries[i].0.as_str(), name.as_str()) {
                let ghost nn = name@;
                assert(e[i as int].0 == name@);
                proof {
                    lemma_pairs_update(e, i as int, value@);
                }
                let ghost nv = value@;
                self.entries.set(i, (name, value));
                assert(pair_views(self.entries@) =~= e.update(i as int, (e[i as int].0, nv)));
                assert(self@ == pairs_map(e).insert(nn, nv));
                return;
            }
            i = i + 1;
        }
        let ghost nn = name@;
        let ghost nv = value@;
        self.entries.push((name, value));
        assert(pair_views(self.entries@) =~= e.push((nn, nv)));
        assert(e.push((nn, nv)).drop_last() =~= e);
    }

    /// Takes `name` out of the set, where it is there.
    pub fn remove(&mut self, name: &str)
        requires
            old(self).wf(),
        ensures
            final(self).wf(),
            final(self)@ == old(self)@.remove(name@),
    {
        let ghost e = pair_views(self.entries@);
        let mut i: usize = 0;
        while i < self.entries.len()
            invariant
                e == pair_views(self.entries@),
                e == pair_views(old(self).entries@),
                names_unique(e),
                i <= self.entries@.len(),
                forall|k: int| 0 <= k < i ==> #[trigger] e[k].0 != name@,
            decreases self.entries.len() - i,
        {
            if str_eq(self.entries[i].0.as_str(), name) {
                assert(e[i as int].0 == name@);
                proof {
                    lemma_pairs_remove(e, i as int);
                }
                self.entries.remove(i);
                assert(pair_views(self.entries@) =~= e.remove(i as int));
                return;
            }
            i = i + 1;
        }
        proof {
            lemma_pairs_names(e, name@);
        }
        assert(self@ =~= old(self)@.remove(name@));
    }

    /// The value of `name`, if the set holds it.
    pub fn get(&self, name: &str) -> (r: Option<&String>)
        requires
            self.wf(),
        ensures
            match r {
                Some(v) => self@.contains_key(name@) && v@ == self@[name@],
                None => !self@.contains_key(name@),
            },
    {
        let ghost e = pair_views(self.entries@);
        let mut i: usize = 0;
        while i < self.entries.len()
            invariant
                e == pair_views(self.entries@),
                names_unique(e),
                i <= self.entries@.len(),
                forall|k: int| 0 <= k < i ==> #[trigger] e[k].0 != name@,
            decreases self.entries.len() - i,
        {
            if str_eq(self.entries[i].0.as_str(), name) {
                proof {
                    lemma_pairs_lookup(e, i as int);
                }
                return Some(&self.entries[i].1);
            }
            i = i + 1;
        }
        proof {
            lemma_pairs_names(e, name@);
        }
        None
    }

    /// The entries, one per name.
    pub fn entries(&self) -> (r: &Vec<(String, String)>)
        requires
            self.wf(),
        ensures
            names_unique(pair_views(r@)),
            pairs_map(pair_views(r@)) == self@,
    {
        &self.entries
    }

    /// The set holding each pair in turn, a later pair replacing an earlier one.
    pub fn from_pairs(pairs: &Vec<(String, String)>) -> (r: HeaderSet)
        ensures
            r.wf(),
            r@ == pairs_map(pair_views(pairs@)),
    {
        let mut r = HeaderSet::new();
        r.insert_all(pairs);
        r
    }

    /// Sets each pair in turn.
    pub fn insert_all(&mut self, pairs: &Vec<(String, String)>)
        requires
            old(self).wf(),
        ensures
            final(self).wf(),
            final(self)@ == old(self)@.union_prefer_right(pairs_map(pair_views(pairs@))),
    {
        let ghost e = pair_views(pairs@);
        let ghost start = self@;
        let mut i: usize = 0;
        while i < pairs.len()
            invariant
                e == pair_views(pairs@),
                i <= pairs@.len(),
                self.wf(),
                self@ == start.union_prefer_right(pairs_map(e.take(i as int))),
            decreases pairs.len() - i,
        {
            assert(e.take(i + 1).drop_last() =~= e.take(i as int));
            self.insert(pairs[i].0.clone(), pairs[i].1.clone());
            assert(self@ =~= start.union_prefer_right(pairs_map(e.take(i + 1))));
            i = i + 1;
        }
        assert(e.take(e.len() as int) =~= e);
    }
}

/// Which of the two configured header sets to build.
#[derive(Clone, Copy, Debug, PartialEq, Eq, Structural)]
pub enum HeaderMapType {
    /// The headers of HTML documents: the general ones, overridden by the document ones.
    Document,
    /// The headers of every response.
    All,
}

/// The header section of the configuration.
#[derive(Debug)]
pub struct Headers {
    pub all: Vec<(String, String)>,
    pub document: Vec<(String, String)>,
}

/// The server configuration: response headers, and the path fragments of
/// assets that stay on disk.
#[derive(Debug)]
pub struct Config {
    pub headers: Headers,
    pub no_memory: Vec<String>,
}

impl Headers {
    /// Each of the two lists names a header at most once, as a map would.
    pub open spec fn wf(&self) -> bool {
        names_unique(pair_views(self.all@)) && names_unique(pair_views(self.document@))
    }
}

/// A character that may stand in a header name: a letter, a digit, or one of
/// ``!"#$%&'*+-.^_`|~``.
pub open spec fn is_token_char(c: char) -> bool {
    let n = c as u32;
    ||| 48 <= n <= 57
    ||| 65 <= n <= 90
    ||| 97 <= n <= 122
    ||| 33 <= n <= 39
    ||| n == 42 || n == 43 || n == 45 || n == 46
    ||| n == 94 || n == 95 || n == 96 || n == 124 || n == 126
}

/// A valid header name: 1 to 65535 token characters.
pub open spec fn valid_header_name(name: Seq<char>) -> bool {
    1 <= name.len() <= 65535 && forall|i: int| 0 <= i < name.len() ==> is_token_char(#[trigger] name[i])
}

/// A valid header value: every character is a tab, or has a code of at least
/// 32 other than 127.
pub open spec fn valid_header_value(value: Seq<char>) -> bool {
    forall|i: int|
        0 <= i < value.len() ==> (#[trigger] value[i] as u32 == 9 || (value[i] as u32 >= 32 && value[i] as u32
            != 127))
}

/// Relies on `hyper::header::HeaderName::from_bytes`: it accepts 1 to 65535
/// bytes that its table maps to a token character; every byte of a non-ASCII
/// character maps to none.
#[verifier::external_body]
fn is_header_name(name: &str) -> (r: bool)
    ensures
        r == valid_header_name(name@),
{
    hyper::header::HeaderName::from_bytes(name.as_bytes()).is_ok()
}

/// Relies on `hyper::header::HeaderValue::from_str`: it accepts the bytes that
/// are a tab or at least 32 and not 127; every byte of a non-ASCII character is
/// at least 128.
#[verifier::external_body]
fn is_header_value(value: &str) -> (r: bool)
    ensures
        r == valid_header_value(value@),
{
    hyper::header::HeaderValue::from_str(value).is_ok()
}

/// The pair has a valid header name and a valid header value.
pub open spec fn pair_ok(p: (Seq<char>, Seq<char>)) -> bool {
    valid_header_name(p.0) && valid_header_value(p.1)
}

/// Every pair has a valid name and value, and no name comes twice.
pub open spec fn pairs_sound(e: Seq<(Seq<char>, Seq<char>)>) -> bool {
    names_unique(e) && forall|i: int| 0 <= i < e.len() ==> #[trigger] pair_ok(e[i])
}

/// Whether every pair has a valid name and value, with no name twice.
fn pairs_sound_exec(pairs: &Vec<(String, String)>) -> (r: bool)
    ensures
        r == pairs_sound(pair_views(pairs@)),
{
    let ghost e = pair_views(pairs@);
    let mut j: usize = 0;
    while j < pairs.len()
        invariant
            e == pair_views(pairs@),
            j <= pairs@.len(),
            forall|k: int| 0 <= k < j ==> #[trigger] pair_ok(e[k]),
            forall|a: int, b: int| 0 <= a < b < j ==> #[trigger] e[a].0 != #[trigger] e[b].0,
        decreases pairs.len() - j,
    {
        assert(e[j as int] == (pairs@[j as int].0@, pairs@[j as int].1@));
        if !is_header_name(pairs[j].0.as_str()) || !is_header_value(pairs[j].1.as_str()) {
            assert(!pair_ok(e[j as int]));
            return false;
        }
        let mut i: usize = 0;
        while i < j
            invariant
                e == pair_views(pairs@),
                i <= j < pairs@.len(),
                forall|a: int| 0 <= a < i ==> #[trigger] e[a].0 != e[j as int].0,
            decreases j - i,
        {
            assert(e[i as int] == (pairs@[i as int].0@, pairs@[i as int].1@));
            if str_eq(pairs[i].0.as_str(), pairs[j].0.as_str()) {
                assert(e[i as int].0 == e[j as int].0);
                assert(!names_unique(e));
                return false;
            }
            i = i + 1;
        }
        j = j + 1;
    }
    true
}

/// The configured headers that a map of the kind is built from are sound:
/// the general ones for either kind, and the document ones as well for documents.
pub open spec fn headers_ok(config: Config, map_type: HeaderMapType) -> bool {
    &&& pairs_sound(pair_views(config.headers.all@))
    &&& map_type == HeaderMapType::Document ==> pairs_sound(pair_views(config.headers.document@))
}

/// Why no header set could be built from the configuration.
#[derive(Clone, Copy, Debug, PartialEq, Eq, Structural)]
pub enum HeaderError {
    /// A header name or value that HTTP does not allow, or a name given twice.
    Malformed,
}

/// The header map of a kind, as the configuration gives it.
pub open spec fn header_map_of(config: Config, map_type: HeaderMapType) -> Map<Seq<char>, Seq<char>> {
    let all = pairs_map(pair_views(config.headers.all@));
    match map_type {
        HeaderMapType::Document => all.union_prefer_right(pairs_map(pair_views(config.headers.document@))),
        HeaderMapType::All => all,
    }
}

/// Builds the header set of a kind from the configuration: the general headers,
/// and for documents the document headers over them. Fails where one of those
/// headers has a name or value that HTTP does not allow, or a name comes twice
/// in one list.
pub fn create_header_map(config: &Config, map_type: HeaderMapType) -> (r: Result<HeaderSet, HeaderError>)
    ensures
        match r {
            Ok(s) => headers_ok(*config, map_type) && s.wf() && s@ == header_map_of(*config, map_type),
            Err(e) => e == HeaderError::Malformed && !headers_ok(*config, map_type),
        },
{
    if !pairs_sound_exec(&config.headers.all) {
        return Err(HeaderError::Malformed);
    }
    let mut r = HeaderSet::from_pairs(&config.headers.all);
    if map_type == HeaderMapType::Document {
        if !pairs_sound_exec(&config.headers.document) {
            return Err(HeaderError::Malformed);
        }
        r.insert_all(&config.headers.document);
    }
    Ok(r)
}

/// The two header sets, built once from the configuration.
#[derive(Debug)]
pub struct HeaderPolicy {
    document: HeaderSet,
    all: HeaderSet,
}

impl HeaderPolicy {
    /// The headers of an HTML response.
    pub closed spec fn document_view(&self) -> Map<Seq<char>, Seq<char>> {
        self.document@
    }

    /// The headers of any other response.
    pub closed spec fn all_view(&self) -> Map<Seq<char>, Seq<char>> {
        self.all@
    }

    /// Both sets hold one entry per name.
    pub closed spec fn wf(&self) -> bool {
        self.document.wf() && self.all.wf()
    }

    /// The headers for a response of `content_type`.
    pub open spec fn effective_view(&self, content_type: Seq<char>) -> Map<Seq<char>, Seq<char>> {
        if content_type == html_type() {
            self.document_view()
        } else {
            self.all_view()
        }
    }

    /// Builds both sets from the configuration; fails exactly where the
    /// configured headers are not sound.
    pub fn new(config: &Config) -> (r: Result<HeaderPolicy, HeaderError>)
        ensures
            match r {
                Ok(p) => {
                    &&& headers_ok(*config, HeaderMapType::Document)
                    &&& config.headers.wf()
                    &&& p.wf()
                    &&& p.document_view() == header_map_of(*config, HeaderMapType::Document)
                    &&& p.all_view() == header_map_of(*config, HeaderMapType::All)
                },
                Err(e) => e == HeaderError::Malformed && !headers_ok(*config, HeaderMapType::Document),
            },
    {
        let document = match create_header_map(config, HeaderMapType::Document) {
            Ok(s) => s,
            Err(e) => return Err(e),
        };
        let all = match create_header_map(config, HeaderMapType::All) {
            Ok(s) => s,
            Err(e) => return Err(e),
        };
        Ok(HeaderPolicy { document, all })
    }

    /// The headers for a response of `content_type`: the document set for
    /// `text/html`, the general set otherwise.
    pub fn effective_headers(&self, content_type: &str) -> (r: &HeaderSet)
        requires
            self.wf(),
        ensures
            r.wf(),
            r@ == self.effective_view(content_type@),
    {
        if is_html(content_type) {
            &self.document
        } else {
            &self.all
        }
    }
}

} // verus!
