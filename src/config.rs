//! Preparing configuration text and values: `${NAME}` substitution from a list
//! of variables, and whitespace folding of header values.
use vstd::prelude::*;
use crate::headers::{Config, Headers, pair_views};
use crate::text::{chars_of, push_char, str_eq};

verus! {

/// A white space character, as Unicode's `White_Space` property lists them:
/// tab, line feed, vertical tab, form feed, carriage return, space, next line,
/// no-break space, ogham space mark, the spaces from en quad to hair space,
/// line and paragraph separators, narrow no-break space, medium mathematical
/// space and ideographic space.
pub open spec fn is_space(c: char) -> bool {
    let n = c as u32;
    ||| 9 <= n <= 13
    ||| n == 32
    ||| n == 0x85
    ||| n == 0xA0
    ||| n == 0x1680
    ||| 0x2000 <= n <= 0x200A
    ||| n == 0x2028
    ||| n == 0x2029
    ||| n == 0x202F
    ||| n == 0x205F
    ||| n == 0x3000
}

/// Whether `c` is a white space character.
pub fn is_space_char(c: char) -> (r: bool)
    ensures
        r == is_space(c),
{
    let n = c as u32;
    (9 <= n && n <= 13) || n == 32 || n == 0x85 || n == 0xA0 || n == 0x1680 || (0x2000 <= n && n
        <= 0x200A) || n == 0x2028 || n == 0x2029 || n == 0x202F || n == 0x205F || n == 0x3000
}

/// `s` with each maximal run of white space replaced by one space.
pub open spec fn fold_spaces(s: Seq<char>) -> Seq<char>
    decreases s.len(),
{
    if s.len() == 0 {
        s
    } else {
        let before = fold_spaces(s.drop_last());
        let c = s.last();
        if !is_space(c) {
            before.push(c)
        } else if s.len() >= 2 && is_space(s[s.len() - 2]) {
            before
        } else {
            before.push(' ')
        }
    }
}

/// A folded value is one line: its only white space is the plain space, never
/// two in a row; and it ends in white space exactly when the original does.
pub proof fn lemma_fold_spaces_single_line(s: Seq<char>)
    ensures
        forall|i: int| 0 <= i < fold_spaces(s).len() && is_space(#[trigger] fold_spaces(s)[i])
            ==> fold_spaces(s)[i] == ' ',
        forall|i: int| 0 <= i < fold_spaces(s).len() - 1 ==> !(is_space(#[trigger] fold_spaces(s)[i])
            && is_space(fold_spaces(s)[i + 1])),
        s.len() > 0 ==> fold_spaces(s).len() > 0 && (is_space(fold_spaces(s).last()) <==> is_space(s.last())),
    decreases s.len(),
{
    if s.len() > 0 {
        let d = s.drop_last();
        lemma_fold_spaces_single_line(d);
        let b = fold_spaces(d);
        let f = fold_spaces(s);
        let c = s.last();
        assert(is_space(' ')) by {
            assert((' ' as u32) == 32);
        }
        if s.len() >= 2 {
            assert(d.last() == s[s.len() - 2]);
        }
        if !is_space(c) {
            assert(f == b.push(c));
        } else if s.len() >= 2 && is_space(s[s.len() - 2]) {
            assert(f == b);
        } else {
            assert(f == b.push(' '));
            assert(b.len() > 0 ==> !is_space(b.last()));
        }
        assert forall|i: int| 0 <= i < f.len() && is_space(#[trigger] f[i]) implies f[i] == ' ' by {
            if i < b.len() {
                assert(f[i] == b[i]);
            }
        }
        assert forall|i: int| 0 <= i < f.len() - 1 implies !(is_space(#[trigger] f[i]) && is_space(f[i + 1])) by {
            if i + 1 < b.len() {
                assert(f[i] == b[i] && f[i + 1] == b[i + 1]);
            } else {
                assert(f[i] == b[i]);
                assert(i == b.len() - 1);
            }
        }
    }
}

/// Folds each maximal run of white space in `value` into one space.
pub fn fold_whitespace(value: &str) -> (r: String)
    ensures
        r@ == fold_spaces(value@),
        forall|i: int| 0 <= i < r@.len() && is_space(#[trigger] r@[i]) ==> r@[i] == ' ',
        forall|i: int| 0 <= i < r@.len() - 1 ==> !(is_space(#[trigger] r@[i]) && is_space(r@[i + 1])),
{
    proof {
        lemma_fold_spaces_single_line(value@);
    }
    let p = chars_of(value);
    let mut r = String::new();
    let mut i: usize = 0;
    while i < p.len()
        invariant
            p@ == value@,
            i <= p@.len(),
            r@ == fold_spaces(p@.take(i as int)),
        decreases p.len() - i,
    {
        assert(p@.take(i + 1).drop_last() =~= p@.take(i as int));
        let c = p[i];
        if !is_space_char(c) {
            push_char(&mut r, c);
        } else if i >= 1 && is_space_char(p[i - 1]) {
        } else {
            push_char(&mut r, ' ');
        }
        i = i + 1;
    }
    assert(p@.take(p@.len() as int) =~= p@);
    r
}

/// The pairs with each value folded.
pub open spec fn folded_pairs(e: Seq<(Seq<char>, Seq<char>)>) -> Seq<(Seq<char>, Seq<char>)> {
    e.map_values(|p: (Seq<char>, Seq<char>)| (p.0, fold_spaces(p.1)))
}

/// Folds the whitespace of each value, keeping names and order.
pub fn fold_header_values(pairs: &Vec<(String, String)>) -> (r: Vec<(String, String)>)
    ensures
        pair_views(r@) == folded_pairs(pair_views(pairs@)),
{
    let mut r: Vec<(String, String)> = Vec::new();
    let mut i: usize = 0;
    while i < pairs.len()
        invariant
            i <= pairs@.len(),
            pair_views(r@) == folded_pairs(pair_views(pairs@)).take(i as int),
        decreases pairs.len() - i,
    {
        let name = pairs[i].0.clone();
        let value = fold_whitespace(pairs[i].1.as_str());
        let ghost entry = (name@, value@);
        assert(folded_pairs(pair_views(pairs@))[i as int] == entry);
        let ghost before = pair_views(r@);
        r.push((name, value));
        assert(pair_views(r@) =~= before.push(entry));
        assert(pair_views(r@) =~= folded_pairs(pair_views(pairs@)).take(i + 1));
        i = i + 1;
    }
    assert(folded_pairs(pair_views(pairs@)).take(pairs@.len() as int) =~= folded_pairs(pair_views(pairs@)));
    r
}

/// The configuration with the whitespace of every header value folded.
pub fn normalize_config(config: Config) -> (r: Config)
    ensures
        pair_views(r.headers.all@) == folded_pairs(pair_views(config.headers.all@)),
        pair_views(r.headers.document@) == folded_pairs(pair_views(config.headers.document@)),
        r.no_memory@ == config.no_memory@,
{
    let all = fold_header_values(&config.headers.all);
    let document = fold_header_values(&config.headers.document);
    Config { headers: Headers { all, document }, no_memory: config.no_memory }
}

/// The value bound to `name`: the first binding of it, or empty where there is none.
pub open spec fn var_value(vars: Seq<(Seq<char>, Seq<char>)>, name: Seq<char>) -> Seq<char>
    decreases vars.len(),
{
    if vars.len() == 0 {
        Seq::empty()
    } else if vars[0].0 == name {
        vars[0].1
    } else {
        var_value(vars.drop_first(), name)
    }
}

/// The first index at or after `from` that holds `}`, or the length of `s`.
pub open spec fn close_from(s: Seq<char>, from: int) -> int
    decreases s.len() - from,
{
    if from >= s.len() {
        s.len() as int
    } else if s[from] == '}' {
        from
    } else {
        close_from(s, from + 1)
    }
}

/// A variable name: not empty, and free of `$`, `{` and `}`.
pub open spec fn is_var_name(name: Seq<char>) -> bool {
    name.len() > 0 && forall|k: int| 0 <= k < name.len() ==> #[trigger] name[k] != '$' && name[k] != '{'
        && name[k] != '}'
}

/// `s` from index `i` on, with each `${NAME}` replaced by the value of `NAME`.
/// A `$` that does not open such a token stays as it is.
pub open spec fn substitute_from(s: Seq<char>, vars: Seq<(Seq<char>, Seq<char>)>, i: int) -> Seq<char>
    decreases s.len() - i,
{
    if i < 0 || i >= s.len() {
        Seq::empty()
    } else {
        let j = close_from(s, i + 2);
        if i + 1 < s.len() && s[i] == '$' && s[i + 1] == '{' && i + 2 <= j < s.len() && is_var_name(
            s.subrange(i + 2, j),
        ) {
            var_value(vars, s.subrange(i + 2, j)) + substitute_from(s, vars, j + 1)
        } else {
            seq![s[i]] + substitute_from(s, vars, i + 1)
        }
    }
}

/// `s` with each `${NAME}` replaced by the value of `NAME` (empty where unbound).
pub open spec fn substitute(s: Seq<char>, vars: Seq<(Seq<char>, Seq<char>)>) -> Seq<char> {
    substitute_from(s, vars, 0)
}

/// `close_from` lies between `from` and the length of `s`, and no `}` lies before it.
proof fn lemma_close_from(s: Seq<char>, from: int)
    requires
        0 <= from,
    ensures
        from <= close_from(s, from) || from > s.len(),
        close_from(s, from) <= s.len() || from > s.len(),
        close_from(s, from) < s.len() ==> s[close_from(s, from)] == '}',
    decreases s.len() - from,
{
    if from < s.len() && s[from] != '}' {
        lemma_close_from(s, from + 1);
    }
}

/// The first index at or after `from` that holds `}`, or the length of `s`.
fn find_close(s: &Vec<char>, from: usize) -> (r: usize)
    requires
        from <= s@.len(),
    ensures
        r == close_from(s@, from as int),
{
    let mut k: usize = from;
    while k < s.len()
        invariant
            from <= k <= s@.len(),
            close_from(s@, k as int) == close_from(s@, from as int),
        decreases s.len() - k,
    {
        if s[k] == '}' {
            return k;
        }
        k = k + 1;
    }
    k
}

/// Whether the characters of `s` from `from` up to `to` form a variable name.
fn is_var_name_at(s: &Vec<char>, from: usize, to: usize) -> (r: bool)
    requires
        from <= to <= s@.len(),
    ensures
        r == is_var_name(s@.subrange(from as int, to as int)),
{
    if from == to {
        return false;
    }
    let ghost n = s@.subrange(from as int, to as int);
    let mut k: usize = from;
    while k < to
        invariant
            from <= k <= to <= s@.len(),
            n == s@.subrange(from as int, to as int),
            forall|m: int| 0 <= m < k - from ==> #[trigger] n[m] != '$' && n[m] != '{' && n[m] != '}',
        decreases to - k,
    {
        let c = s[k];
        if c == '$' || c == '{' || c == '}' {
            assert(n[k - from] == c);
            return false;
        }
        k = k + 1;
    }
    true
}

/// The value bound to `name` among `vars`: the first binding, or empty.
fn lookup_var(vars: &Vec<(String, String)>, name: &str) -> (r: String)
    ensures
        r@ == var_value(pair_views(vars@), name@),
{
    let ghost e = pair_views(vars@);
    assert(e.subrange(0, e.len() as int) =~= e);
    let mut i: usize = 0;
    while i < vars.len()
        invariant
            e == pair_views(vars@),
            i <= vars@.len(),
            var_value(e.subrange(i as int, e.len() as int), name@) == var_value(e, name@),
        decreases vars.len() - i,
    {
        assert(e.subrange(i as int, e.len() as int).drop_first() =~= e.subrange(i + 1, e.len() as int));
        if str_eq(vars[i].0.as_str(), name) {
            return vars[i].1.clone();
        }
        i = i + 1;
    }
    String::new()
}

/// Replaces each `${NAME}` in `config_file` by the value that `vars` binds to
/// `NAME`, or by nothing where `vars` does not bind it.
pub fn replace_variables(config_file: String, vars: &Vec<(String, String)>) -> (r: String)
    ensures
        r@ == substitute(config_file@, pair_views(vars@)),
{
    let ghost e = pair_views(vars@);
    let p = chars_of(config_file.as_str());
    let mut r = String::new();
    let mut i: usize = 0;
    while i < p.len()
        invariant
            p@ == config_file@,
            e == pair_views(vars@),
            i <= p@.len(),
            r@ + substitute_from(p@, e, i as int) == substitute(p@, e),
        decreases p.len() - i,
    {
        let c = p[i];
        if c == '$' && i + 1 < p.len() && p[i + 1] == '{' {
            let j = find_close(&p, i + 2);
            proof {
                lemma_close_from(p@, i + 2);
            }
            if j < p.len() && is_var_name_at(&p, i + 2, j) {
                let value = lookup_var(vars, config_file.as_str().substring_char(i + 2, j));
                let ghost before = r@;
                r.append(value.as_str());
                assert(before + substitute_from(p@, e, i as int) == substitute(p@, e));
                assert(r@ + substitute_from(p@, e, j + 1) =~= before + substitute_from(p@, e, i as int));
                i = j + 1;
                continue;
            }
        }
        let ghost before = r@;
        push_char(&mut r, c);
        proof {
            lemma_close_from(p@, i + 2);
        }
        assert(r@ + substitute_from(p@, e, i + 1) =~= before + substitute_from(p@, e, i as int));
        i = i + 1;
    }
    assert(r@ =~= r@ + substitute_from(p@, e, i as int));
    r
}

} // verus!
