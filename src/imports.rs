//! The `use` statements that a handler's module holds, and the pruning of them
//! down to those that its signature names.
use vstd::prelude::*;
use vstd::string::*;

use crate::text::{
    first_index, find_char, lemma_split_nonempty, replace_all, replace_str, split_on, split_str,
    contains_string, starts_with, starts_with_str, substring, trim, trim_str, views,
};

verus! {

/// A symbol and the import path that brings it in.
pub type Entry = (Seq<char>, Seq<char>);

/// The text of each entry.
pub open spec fn entry_views(es: Seq<(String, String)>) -> Seq<Entry> {
    es.map_values(|e: (String, String)| e@)
}

/// No symbol occurs twice.
pub open spec fn keys_unique(es: Seq<Entry>) -> bool {
    forall|i: int, j: int| 0 <= i < es.len() && 0 <= j < es.len() && es[i].0 == es[j].0 ==> i == j
}

pub open spec fn key_at(es: Seq<Entry>, k: Seq<char>, i: int) -> bool {
    0 <= i < es.len() && es[i].0 == k
}

/// `es` with the path of `k` set to `v`: in place where `k` is present, at the end otherwise.
pub open spec fn insert_entry(es: Seq<Entry>, k: Seq<char>, v: Seq<char>) -> Seq<Entry> {
    if exists|i: int| key_at(es, k, i) {
        es.update(choose|i: int| key_at(es, k, i), (k, v))
    } else {
        es.push((k, v))
    }
}

pub open spec fn insert_pairs(es: Seq<Entry>, ps: Seq<Entry>) -> Seq<Entry>
    decreases ps.len(),
{
    if ps.len() == 0 {
        es
    } else {
        let prev = insert_pairs(es, ps.drop_last());
        insert_entry(prev, ps.last().0, ps.last().1)
    }
}

/// `s` without the copies of `c` at its end.
pub open spec fn strip_trailing(s: Seq<char>, c: char) -> Seq<char>
    decreases s.len(),
{
    if s.len() > 0 && s.last() == c {
        strip_trailing(s.drop_last(), c)
    } else {
        s
    }
}

pub open spec fn remove_spaces(s: Seq<char>) -> Seq<char> {
    replace_all(s, " "@, ""@)
}

/// The trimmed text after the last `:` of a path.
pub open spec fn last_segment(s: Seq<char>) -> Seq<char> {
    trim(split_on(s, ':').last())
}

/// The import of one path: its last segment and the path without spaces.
pub open spec fn path_entry(full: Seq<char>) -> Entry {
    (last_segment(full), remove_spaces(full))
}

/// The symbols that one `use` statement brings in; a group `a::{B, C}` brings
/// in one symbol per member.
pub open spec fn statement_pairs(stmt: Seq<char>) -> Seq<Entry> {
    let st = trim(strip_trailing(trim(stmt), ';'));
    if !starts_with(st, "use "@) {
        Seq::empty()
    } else {
        let p = st.subrange("use "@.len() as int, st.len() as int);
        let i = first_index(p, '{');
        if i >= 0 {
            let full = trim(p.subrange(0, i));
            let items = trim(strip_trailing(trim(p.subrange(i + 1, p.len() as int)), '}'));
            if items.len() > 0 {
                split_on(items, ',').map_values(|it: Seq<char>| path_entry(full + trim(it)))
            } else {
                seq![path_entry(full)]
            }
        } else {
            seq![path_entry(trim(p))]
        }
    }
}

/// The symbols of the statements, a later import of a symbol replacing an earlier one.
pub open spec fn import_entries(stmts: Seq<Seq<char>>) -> Seq<Entry>
    decreases stmts.len(),
{
    if stmts.len() == 0 {
        Seq::empty()
    } else {
        insert_pairs(import_entries(stmts.drop_last()), statement_pairs(stmts.last()))
    }
}

/// Imports that only the server side uses: the extractors of the web framework.
pub open spec fn is_server_only(s: Seq<char>) -> bool {
    s == "axum::Json"@ || s == "axum::extract::Path"@ || s == "axum::extract::Query"@
}

pub(crate) fn is_server_only_exec(s: &String) -> (r: bool)
    ensures
        r == is_server_only(s@),
{
    *s == String::from_str("axum::Json") || *s == String::from_str("axum::extract::Path")
        || *s == String::from_str("axum::extract::Query")
}

/// The paths of the entries whose symbol is among the tokens, in entry order,
/// without server-only imports and without repeats.
pub open spec fn kept(es: Seq<Entry>, tokens: Seq<Seq<char>>) -> Seq<Seq<char>>
    decreases es.len(),
{
    if es.len() == 0 {
        Seq::empty()
    } else {
        let prev = kept(es.drop_last(), tokens);
        if tokens.contains(es.last().0) && !is_server_only(es.last().1) && !prev.contains(
            es.last().1,
        ) {
            prev.push(es.last().1)
        } else {
            prev
        }
    }
}

/// The kept paths hold no server-only import and no path twice.
pub proof fn lemma_kept_clean(es: Seq<Entry>, tokens: Seq<Seq<char>>)
    ensures
        kept(es, tokens).no_duplicates(),
        forall|i: int| 0 <= i < kept(es, tokens).len() ==> !is_server_only(#[trigger] kept(es, tokens)[i]),
    decreases es.len(),
{
    if es.len() > 0 {
        lemma_kept_clean(es.drop_last(), tokens);
        let prev = kept(es.drop_last(), tokens);
        let v = es.last().1;
        if tokens.contains(es.last().0) && !is_server_only(v) && !prev.contains(v) {
            let r = prev.push(v);
            assert forall|i: int, j: int| 0 <= i < r.len() && 0 <= j < r.len() && i != j implies r[i] != r[j] by {
                if i == prev.len() {
                    assert(prev[j] == r[j]);
                } else if j == prev.len() {
                    assert(prev[i] == r[i]);
                }
            }
            assert forall|i: int| 0 <= i < r.len() implies !is_server_only(#[trigger] r[i]) by {
                if i < prev.len() {
                    assert(r[i] == prev[i]);
                }
            }
        }
    }
}

/// What a type name or path looks like in a signature: identifiers joined by `::`.
pub const TYPE_TOKEN_PATTERN: &'static str = "\\b[a-zA-Z_][a-zA-Z0-9_]*(?:::[a-zA-Z_][a-zA-Z0-9_]*)*\\b";

/// The matches of a regular expression in a text, in order; `None` where the
/// pattern does not compile.
pub uninterp spec fn regex_find_all(pattern: Seq<char>, text: Seq<char>) -> Option<Seq<Seq<char>>>;

/// Relies on `regex::Regex::new`, which fails where the pattern does not compile,
/// and on `Regex::find_iter`, which yields the successive non-overlapping matches.
#[verifier::external_body]
fn find_all_matches(pattern: &str, text: &str) -> (r: Option<Vec<String>>)
    ensures
        r matches Some(v) ==> regex_find_all(pattern@, text@) == Some(views(v@)),
        r is None ==> regex_find_all(pattern@, text@) is None,
{
    match regex::Regex::new(pattern) {
        Ok(re) => Some(re.find_iter(text).map(|m| m.as_str().to_string()).collect()),
        Err(_) => None,
    }
}

/// The type tokens of one text.
pub open spec fn text_tokens(text: Seq<char>) -> Seq<Seq<char>> {
    match regex_find_all(TYPE_TOKEN_PATTERN@, text) {
        Some(ms) => ms,
        None => Seq::empty(),
    }
}

/// The type tokens of the texts, in order.
pub open spec fn tokens_of(texts: Seq<Seq<char>>) -> Seq<Seq<char>>
    decreases texts.len(),
{
    if texts.len() == 0 {
        Seq::empty()
    } else {
        tokens_of(texts.drop_last()) + text_tokens(texts.last())
    }
}

fn strip_trailing_exec(s: &str, c: char) -> (r: String)
    ensures
        r@ == strip_trailing(s@, c),
{
    let mut j: usize = s.unicode_len();
    assert(s@.subrange(0, j as int) =~= s@);
    loop
        invariant
            j <= s@.len(),
            strip_trailing(s@, c) == strip_trailing(s@.subrange(0, j as int), c),
        ensures
            j <= s@.len(),
            strip_trailing(s@, c) == s@.subrange(0, j as int),
        decreases j,
    {
        if j == 0 || s.get_char(j - 1) != c {
            break;
        }
        assert(s@.subrange(0, j as int - 1) =~= s@.subrange(0, j as int).drop_last());
        j = j - 1;
    }
    substring(s, 0, j)
}

fn last_segment_exec(s: &str) -> (r: String)
    ensures
        r@ == last_segment(s@),
{
    let parts = split_str(s, ':');
    proof {
        lemma_split_nonempty(s@, ':');
    }
    let n = parts.len();
    assert(views(parts@).last() == parts@[n - 1]@);
    trim_str(parts[n - 1].as_str())
}

fn path_entry_exec(full: &str) -> (r: (String, String))
    ensures
        r@ == path_entry(full@),
{
    proof {
        reveal_strlit(" ");
    }
    (last_segment_exec(full), replace_str(full, " ", ""))
}

fn statement_pairs_exec(stmt: &str) -> (r: Vec<(String, String)>)
    ensures
        entry_views(r@) == statement_pairs(stmt@),
{
    let st = trim_str(strip_trailing_exec(trim_str(stmt).as_str(), ';').as_str());
    let mut r: Vec<(String, String)> = Vec::new();
    if !starts_with_str(st.as_str(), "use ") {
        assert(entry_views(r@) =~= statement_pairs(stmt@));
        return r;
    }
    let prefix_len = "use ".unicode_len();
    let p = substring(st.as_str(), prefix_len, st.unicode_len());
    match find_char(p.as_str(), '{') {
        Some(i) => {
            let full = trim_str(substring(p.as_str(), 0, i).as_str());
            let rest = substring(p.as_str(), i + 1, p.unicode_len());
            let items = trim_str(
                strip_trailing_exec(trim_str(rest.as_str()).as_str(), '}').as_str(),
            );
            if items.unicode_len() > 0 {
                let pieces = split_str(items.as_str(), ',');
                let ghost expected = statement_pairs(stmt@);
                let mut k: usize = 0;
                while k < pieces.len()
                    invariant
                        k <= pieces@.len(),
                        views(pieces@) == split_on(items@, ','),
                        expected == views(pieces@).map_values(
                            |it: Seq<char>| path_entry(full@ + trim(it)),
                        ),
                        entry_views(r@) =~= expected.take(k as int),
                    decreases pieces@.len() - k,
                {
                    let ghost before = r@;
                    let it = trim_str(pieces[k].as_str());
                    let mut path = full.clone();
                    path.append(it.as_str());
                    let e = path_entry_exec(path.as_str());
                    assert(views(pieces@)[k as int] == pieces@[k as int]@);
                    r.push(e);
                    k = k + 1;
                    assert(entry_views(r@) =~= entry_views(before).push(e@));
                }
                assert(expected.take(k as int) =~= expected);
                r
            } else {
                r.push(path_entry_exec(full.as_str()));
                assert(entry_views(r@) =~= statement_pairs(stmt@));
                r
            }
        },
        None => {
            let full = trim_str(p.as_str());
            r.push(path_entry_exec(full.as_str()));
            assert(entry_views(r@) =~= statement_pairs(stmt@));
            r
        },
    }
}

pub(crate) fn insert_entry_exec(es: &mut Vec<(String, String)>, k: String, v: String)
    requires
        keys_unique(entry_views(old(es)@)),
    ensures
        entry_views(final(es)@) == insert_entry(entry_views(old(es)@), k@, v@),
        keys_unique(entry_views(final(es)@)),
{
    let ghost ev = entry_views(es@);
    let mut i: usize = 0;
    while i < es.len()
        invariant
            i <= es@.len(),
            es@ == old(es)@,
            ev == entry_views(es@),
            keys_unique(ev),
            forall|j: int| 0 <= j < i ==> ev[j].0 != k@,
        decreases es@.len() - i,
    {
        if es[i].0 == k {
            assert(key_at(ev, k@, i as int));
            let ghost c = choose|c: int| key_at(ev, k@, c);
            assert(c == i);
            es[i] = (k, v);
            assert(entry_views(es@) =~= ev.update(i as int, (k@, v@)));
            return;
        }
        i = i + 1;
    }
    assert(!exists|j: int| key_at(ev, k@, j));
    es.push((k, v));
    assert(entry_views(es@) =~= ev.push((k@, v@)));
}

/// The symbols that the `use` statements bring in, each with its import path; a
/// later import of a symbol replaces an earlier one, and no symbol occurs twice.
pub fn uses_to_map(use_statements: Vec<String>) -> (r: Vec<(String, String)>)
    ensures
        entry_views(r@) == import_entries(views(use_statements@)),
        keys_unique(entry_views(r@)),
{
    let mut r: Vec<(String, String)> = Vec::new();
    let mut s: usize = 0;
    assert(entry_views(r@) =~= import_entries(views(use_statements@).take(0)));
    while s < use_statements.len()
        invariant
            s <= use_statements@.len(),
            entry_views(r@) == import_entries(views(use_statements@).take(s as int)),
            keys_unique(entry_views(r@)),
        decreases use_statements@.len() - s,
    {
        let pairs = statement_pairs_exec(use_statements[s].as_str());
        let ghost base = entry_views(r@);
        let mut k: usize = 0;
        assert(insert_pairs(base, entry_views(pairs@).take(0)) == base);
        while k < pairs.len()
            invariant
                k <= pairs@.len(),
                entry_views(r@) == insert_pairs(base, entry_views(pairs@).take(k as int)),
                keys_unique(entry_views(r@)),
            decreases pairs@.len() - k,
        {
            let key = pairs[k].0.clone();
            let path = pairs[k].1.clone();
            assert(entry_views(pairs@)[k as int] == pairs@[k as int]@);
            insert_entry_exec(&mut r, key, path);
            k = k + 1;
            assert(entry_views(pairs@).take(k as int).drop_last() =~= entry_views(pairs@).take(
                k as int - 1,
            ));
        }
        assert(entry_views(pairs@).take(k as int) =~= entry_views(pairs@));
        s = s + 1;
        assert(views(use_statements@).take(s as int).drop_last() =~= views(use_statements@).take(
            s as int - 1,
        ));
        assert(views(use_statements@)[s as int - 1] == use_statements@[s as int - 1]@);
    }
    assert(views(use_statements@).take(s as int) =~= views(use_statements@));
    r
}

/// The import paths of the entries whose symbol is among the tokens, in entry
/// order; server-only imports are left out, and no path comes twice.
pub fn select_imports(entries: &Vec<(String, String)>, tokens: &Vec<String>) -> (r: Vec<String>)
    ensures
        views(r@) == kept(entry_views(entries@), views(tokens@)),
        views(r@).no_duplicates(),
        forall|i: int| 0 <= i < r@.len() ==> !is_server_only(#[trigger] r@[i]@),
{
    let mut r: Vec<String> = Vec::new();
    let mut k: usize = 0;
    while k < entries.len()
        invariant
            k <= entries@.len(),
            views(r@) == kept(entry_views(entries@).take(k as int), views(tokens@)),
        decreases entries@.len() - k,
    {
        let ghost before = r@;
        assert(entry_views(entries@).take(k as int + 1).drop_last() =~= entry_views(
            entries@,
        ).take(k as int));
        assert(entry_views(entries@).take(k as int + 1).last() == entries@[k as int]@);
        if contains_string(tokens, &entries[k].0) && !is_server_only_exec(&entries[k].1)
            && !contains_string(&r, &entries[k].1) {
            r.push(entries[k].1.clone());
            assert(views(r@) =~= views(before).push(entries@[k as int].1@));
        }
        k = k + 1;
    }
    assert(entry_views(entries@).take(k as int) =~= entry_views(entries@));
    proof {
        lemma_kept_clean(entry_views(entries@), views(tokens@));
        assert forall|i: int| 0 <= i < r@.len() implies !is_server_only(#[trigger] r@[i]@) by {
            assert(views(r@)[i] == r@[i]@);
        }
    }
    r
}

/// The type tokens of the texts: each identifier or `::` path, in order.
pub fn type_tokens(texts: &Vec<String>) -> (r: Vec<String>)
    ensures
        views(r@) == tokens_of(views(texts@)),
{
    let mut r: Vec<String> = Vec::new();
    let mut k: usize = 0;
    assert(views(r@) =~= tokens_of(views(texts@).take(0)));
    while k < texts.len()
        invariant
            k <= texts@.len(),
            views(r@) == tokens_of(views(texts@).take(k as int)),
        decreases texts@.len() - k,
    {
        let ghost before = r@;
        assert(views(texts@).take(k as int + 1).drop_last() =~= views(texts@).take(k as int));
        assert(views(texts@).take(k as int + 1).last() == texts@[k as int]@);
        match find_all_matches(TYPE_TOKEN_PATTERN, texts[k].as_str()) {
            Some(mut ms) => {
                let ghost added = ms@;
                r.append(&mut ms);
                assert(views(r@) =~= views(before) + views(added));
            },
            None => {
                assert(views(r@) =~= views(before) + Seq::<Seq<char>>::empty());
            },
        }
        k = k + 1;
    }
    assert(views(texts@).take(k as int) =~= views(texts@));
    r
}

/// The import paths that a handler's signature needs: those of the symbols that
/// occur as type tokens in an argument or in the return type, each once, and
/// none of the server-only imports.
pub fn filter_use_statements(
    collected_uses_map: Vec<(String, String)>,
    fn_args: Vec<String>,
    fn_return_type: String,
) -> (r: Vec<String>)
    ensures
        views(r@) == kept(
            entry_views(collected_uses_map@),
            tokens_of(views(fn_args@).push(fn_return_type@)),
        ),
        views(r@).no_duplicates(),
        forall|i: int| 0 <= i < r@.len() ==> !is_server_only(#[trigger] r@[i]@),
{
    let mut texts = fn_args;
    let ghost args = texts@;
    texts.push(fn_return_type);
    assert(views(texts@) =~= views(args).push(fn_return_type@));
    let tokens = type_tokens(&texts);
    select_imports(&collected_uses_map, &tokens)
}

} // verus!
