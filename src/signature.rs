//! Reading a handler's argument list and return type from their compact text.
//!
//! The argument list is a `;`-joined list of entries `<names>:<types>`. A name part
//! `Json(n)` sends `n` as the request body, `Path(n)` or `Path((n1,n2))` as path
//! segments, and anything else as a query parameter; the type part unwraps
//! `Json<T>`, `Path<T>` and `Path<(T1,T2)>` in the same way. An entry without a
//! `:`, or whose name and type lists differ in length, yields no argument.
use vstd::prelude::*;
use vstd::string::*;

use crate::model::{arg_views, ArgView, FnArgInfo, FnArgValueForm};
use crate::text::{
    ends_with, ends_with_char, find_char, first_index, split_on, split_str, starts_with,
    starts_with_str, substring, trim, trim_str, views,
};

verus! {

/// How the payload of a response is wrapped.
#[derive(Debug, Clone, Copy, PartialEq, Eq, Structural)]
pub enum ResponseShape {
    Plain,
    SingleItem,
    Page,
}

/// The text between `open` and a final `close`, where `s` has that shape.
pub open spec fn strip_wrapper(s: Seq<char>, open: Seq<char>, close: char) -> Option<Seq<char>> {
    if starts_with(s, open) && s.len() > open.len() && ends_with(s, close) {
        Some(s.subrange(open.len() as int, s.len() - 1))
    } else {
        None
    }
}

/// `s` without one pair of enclosing parentheses, where it has them.
pub open spec fn unparen(s: Seq<char>) -> Seq<char> {
    if s.len() >= 2 && s[0] == '(' && s.last() == ')' {
        s.subrange(1, s.len() - 1)
    } else {
        s
    }
}

/// The comma-separated list inside a name part, and the form its names take.
pub open spec fn names_part(n: Seq<char>) -> (Seq<char>, FnArgValueForm) {
    match strip_wrapper(n, "Json("@, ')') {
        Some(inner) => (inner, FnArgValueForm::Json),
        None => match strip_wrapper(n, "Path("@, ')') {
            Some(inner) => (unparen(inner), FnArgValueForm::Path),
            None => (n, FnArgValueForm::QueryString),
        },
    }
}

/// The comma-separated list inside a type part.
pub open spec fn types_part(t: Seq<char>) -> Seq<char> {
    match strip_wrapper(t, "Json<"@, '>') {
        Some(inner) => inner,
        None => match strip_wrapper(t, "Path<"@, '>') {
            Some(inner) => unparen(inner),
            None => t,
        },
    }
}

/// The trimmed pieces of a comma-separated list.
pub open spec fn list_items(s: Seq<char>) -> Seq<Seq<char>> {
    split_on(s, ',').map_values(|x: Seq<char>| trim(x))
}

/// The arguments that one entry `<names>:<types>` declares.
pub open spec fn parse_entry(e: Seq<char>) -> Seq<ArgView> {
    let i = first_index(e, ':');
    if i < 0 {
        Seq::empty()
    } else {
        let (inner, form) = names_part(trim(e.subrange(0, i)));
        let names = list_items(inner);
        let types = list_items(types_part(trim(e.subrange(i + 1, e.len() as int))));
        if names.len() != types.len() {
            Seq::empty()
        } else {
            Seq::new(names.len(), |k: int| (names[k], types[k], form))
        }
    }
}

/// The arguments of the entries, in order.
pub open spec fn parse_entries(es: Seq<Seq<char>>) -> Seq<ArgView>
    decreases es.len(),
{
    if es.len() == 0 {
        Seq::empty()
    } else {
        parse_entries(es.drop_last()) + parse_entry(es.last())
    }
}

/// The arguments that a whole argument list declares.
pub open spec fn parse_args(raw: Seq<char>) -> Seq<ArgView> {
    parse_entries(split_on(raw, ';'))
}

/// `t` without a `Json<..>` around it.
pub open spec fn json_inner(t: Seq<char>) -> Seq<char> {
    match strip_wrapper(t, "Json<"@, '>') {
        Some(inner) => inner,
        None => t,
    }
}

/// How a response of type `t` wraps its payload.
pub open spec fn response_shape(t: Seq<char>) -> ResponseShape {
    if strip_wrapper(t, "ApiResponse<"@, '>') is Some {
        ResponseShape::SingleItem
    } else if strip_wrapper(t, "PagingResponse<"@, '>') is Some {
        ResponseShape::Page
    } else {
        ResponseShape::Plain
    }
}

/// The payload type of a response of type `t`.
pub open spec fn payload_type(t: Seq<char>) -> Seq<char> {
    match strip_wrapper(t, "ApiResponse<"@, '>') {
        Some(inner) => inner,
        None => match strip_wrapper(t, "PagingResponse<"@, '>') {
            Some(inner) => inner,
            None => t,
        },
    }
}

fn strip_wrapper_exec(s: &str, open: &str, close: char) -> (r: Option<String>)
    ensures
        r matches Some(x) ==> strip_wrapper(s@, open@, close) == Some(x@),
        r is None ==> strip_wrapper(s@, open@, close) is None,
{
    let n = s.unicode_len();
    let m = open.unicode_len();
    if starts_with_str(s, open) && n > m && ends_with_char(s, close) {
        Some(substring(s, m, n - 1))
    } else {
        None
    }
}

fn unparen_exec(s: &str) -> (r: String)
    ensures
        r@ == unparen(s@),
{
    let n = s.unicode_len();
    if n >= 2 && s.get_char(0) == '(' && s.get_char(n - 1) == ')' {
        substring(s, 1, n - 1)
    } else {
        String::from_str(s)
    }
}

fn names_part_exec(n: &str) -> (r: (String, FnArgValueForm))
    ensures
        (r.0@, r.1) == names_part(n@),
{
    match strip_wrapper_exec(n, "Json(", ')') {
        Some(inner) => (inner, FnArgValueForm::Json),
        None => match strip_wrapper_exec(n, "Path(", ')') {
            Some(inner) => (unparen_exec(inner.as_str()), FnArgValueForm::Path),
            None => (String::from_str(n), FnArgValueForm::QueryString),
        },
    }
}

fn types_part_exec(t: &str) -> (r: String)
    ensures
        r@ == types_part(t@),
{
    match strip_wrapper_exec(t, "Json<", '>') {
        Some(inner) => inner,
        None => match strip_wrapper_exec(t, "Path<", '>') {
            Some(inner) => unparen_exec(inner.as_str()),
            None => String::from_str(t),
        },
    }
}

fn list_items_exec(s: &str) -> (r: Vec<String>)
    ensures
        views(r@) == list_items(s@),
{
    let pieces = split_str(s, ',');
    let mut out: Vec<String> = Vec::new();
    let mut k: usize = 0;
    while k < pieces.len()
        invariant
            k <= pieces@.len(),
            views(pieces@) == split_on(s@, ','),
            views(out@) =~= views(pieces@).take(k as int).map_values(|x: Seq<char>| trim(x)),
        decreases pieces@.len() - k,
    {
        let ghost before = out@;
        let t = trim_str(pieces[k].as_str());
        assert(views(pieces@)[k as int] == pieces@[k as int]@);
        out.push(t);
        k = k + 1;
        assert(views(out@) =~= views(before).push(t@));
        assert(views(out@) =~= views(pieces@).take(k as int).map_values(|x: Seq<char>| trim(x)));
    }
    assert(views(pieces@).take(k as int) =~= views(pieces@));
    out
}

/// The arguments that one entry `<names>:<types>` declares.
fn parse_entry_exec(e: &str) -> (r: Vec<FnArgInfo>)
    ensures
        arg_views(r@) == parse_entry(e@),
{
    let n = e.unicode_len();
    match find_char(e, ':') {
        None => {
            let r: Vec<FnArgInfo> = Vec::new();
            assert(arg_views(r@) =~= parse_entry(e@));
            r
        },
        Some(i) => {
            let names_str = trim_str(substring(e, 0, i).as_str());
            let types_str = trim_str(substring(e, i + 1, n).as_str());
            let (inner, form) = names_part_exec(names_str.as_str());
            let names = list_items_exec(inner.as_str());
            let types = list_items_exec(types_part_exec(types_str.as_str()).as_str());
            let mut r: Vec<FnArgInfo> = Vec::new();
            if names.len() != types.len() {
                assert(arg_views(r@) =~= parse_entry(e@));
                return r;
            }
            let ghost expected = parse_entry(e@);
            let mut k: usize = 0;
            while k < names.len()
                invariant
                    k <= names@.len(),
                    names@.len() == types@.len(),
                    views(names@) == list_items(names_part(trim(e@.subrange(0, i as int))).0),
                    form == names_part(trim(e@.subrange(0, i as int))).1,
                    views(types@) == list_items(
                        types_part(trim(e@.subrange(i + 1, e@.len() as int))),
                    ),
                    0 <= i < e@.len(),
                    first_index(e@, ':') == i,
                    expected == parse_entry(e@),
                    expected.len() == names@.len(),
                    arg_views(r@) =~= expected.take(k as int),
                decreases names@.len() - k,
            {
                let a = FnArgInfo {
                    name: names[k].clone(),
                    arg_type: types[k].clone(),
                    value_form: form,
                };
                let ghost before = r@;
                assert(views(names@)[k as int] == names@[k as int]@);
                assert(views(types@)[k as int] == types@[k as int]@);
                assert(a@ == expected[k as int]);
                r.push(a);
                k = k + 1;
                assert(arg_views(r@) =~= arg_views(before).push(a@));
                assert(arg_views(r@) =~= expected.take(k as int));
            }
            assert(expected.take(k as int) =~= expected);
            r
        },
    }
}

/// Splits a handler's argument list into its arguments, with the value form of each.
pub fn parts_fn_args_names_and_types(fn_args: String) -> (r: Vec<FnArgInfo>)
    ensures
        arg_views(r@) == parse_args(fn_args@),
{
    let entries = split_str(fn_args.as_str(), ';');
    let mut r: Vec<FnArgInfo> = Vec::new();
    let mut k: usize = 0;
    assert(arg_views(r@) =~= parse_entries(views(entries@).take(0)));
    while k < entries.len()
        invariant
            k <= entries@.len(),
            views(entries@) == split_on(fn_args@, ';'),
            arg_views(r@) == parse_entries(views(entries@).take(k as int)),
        decreases entries@.len() - k,
    {
        let ghost before = r@;
        let mut part = parse_entry_exec(entries[k].as_str());
        let ghost added = part@;
        r.append(&mut part);
        k = k + 1;
        assert(views(entries@).take(k as int).drop_last() =~= views(entries@).take(k as int - 1));
        assert(arg_views(r@) =~= arg_views(before) + arg_views(added));
    }
    assert(views(entries@).take(k as int) =~= views(entries@));
    r
}

/// The payload type and the response shape of a handler's return type.
pub fn return_payload(fn_return_type: &str) -> (r: (String, ResponseShape))
    ensures
        r.0@ == payload_type(json_inner(fn_return_type@)),
        r.1 == response_shape(json_inner(fn_return_type@)),
{
    let t = strip_json(fn_return_type);
    let shape = response_shape_exec(t.as_str());
    let payload = match strip_wrapper_exec(t.as_str(), "ApiResponse<", '>') {
        Some(inner) => inner,
        None => match strip_wrapper_exec(t.as_str(), "PagingResponse<", '>') {
            Some(inner) => inner,
            None => t.clone(),
        },
    };
    (payload, shape)
}

/// `t` without a `Json<..>` around it.
pub fn strip_json(t: &str) -> (r: String)
    ensures
        r@ == json_inner(t@),
{
    match strip_wrapper_exec(t, "Json<", '>') {
        Some(inner) => inner,
        None => String::from_str(t),
    }
}

/// How a response of type `t` wraps its payload.
pub fn response_shape_exec(t: &str) -> (r: ResponseShape)
    ensures
        r == response_shape(t@),
{
    if strip_wrapper_exec(t, "ApiResponse<", '>').is_some() {
        ResponseShape::SingleItem
    } else if strip_wrapper_exec(t, "PagingResponse<", '>').is_some() {
        ResponseShape::Page
    } else {
        ResponseShape::Plain
    }
}

} // verus!
