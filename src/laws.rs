//! Properties of argument parsing, return-type unwrapping and client generation.
use vstd::prelude::*;

use crate::codegen::{
    body_expr, client_call, form_names, operation, param, param_list, path_matches, placeholder_names,
    query_pair, substitute_path,
    url_expr, wrapper_expr,
};
use crate::generate::{
    expected_modules, failed_routes, failure_views, module_views, GeneratedClients,
};
use crate::model::{ArgView, DescView, FnArgValueForm};
use crate::signature::{
    json_inner, list_items, names_part, parse_args, parse_entries, parse_entry, payload_type,
    response_shape, strip_wrapper, types_part, unparen, ResponseShape,
};
use crate::text::{
    ascii_lower, first_index, is_blank, is_first_index, join, replace_all, split_on, starts_with, trim,
    trim_end, trim_start,
};

verus! {

/// A text without `c` splits into itself alone.
pub proof fn lemma_split_single(s: Seq<char>, c: char)
    requires
        !s.contains(c),
    ensures
        split_on(s, c) == seq![s],
    decreases s.len(),
{
    if s.len() > 0 {
        assert(!s.drop_last().contains(c)) by {
            if s.drop_last().contains(c) {
                let k = choose|k: int| 0 <= k < s.drop_last().len() && s.drop_last()[k] == c;
                assert(s[k] == c);
            }
        }
        lemma_split_single(s.drop_last(), c);
        assert(s.last() != c) by {
            assert(s[s.len() - 1] == s.last());
        }
        assert(s.drop_last().push(s.last()) =~= s);
        assert(split_on(s, c) =~= seq![s]);
    } else {
        assert(s =~= Seq::<char>::empty());
        assert(split_on(s, c) =~= seq![s]);
    }
}

/// A text made of two without `c` holds no `c`.
pub proof fn lemma_concat_free(s1: Seq<char>, s2: Seq<char>, c: char)
    requires
        !s1.contains(c),
        !s2.contains(c),
    ensures
        !(s1 + s2).contains(c),
{
    if (s1 + s2).contains(c) {
        let k = choose|k: int| 0 <= k < (s1 + s2).len() && (s1 + s2)[k] == c;
        if k < s1.len() {
            assert(s1[k] == c);
        } else {
            assert(s2[k - s1.len()] == c);
        }
    }
}

/// The first `:` of an entry whose name part holds none ends the name part.
proof fn lemma_entry_colon(n: Seq<char>, ty: Seq<char>)
    requires
        !n.contains(':'),
    ensures
        first_index(n + seq![':'] + ty, ':') == n.len(),
        (n + seq![':'] + ty).subrange(0, n.len() as int) == n,
        (n + seq![':'] + ty).subrange(n.len() + 1int, (n + seq![':'] + ty).len() as int) == ty,
{
    let e = n + seq![':'] + ty;
    assert(is_first_index(e, ':', n.len() as int)) by {
        assert forall|j: int| 0 <= j < n.len() implies e[j] != ':' by {
            assert(e[j] == n[j]);
        }
    }
    lemma_first_index(e, ':', n.len() as int);
    assert(e.subrange(0, n.len() as int) =~= n);
    assert(e.subrange(n.len() + 1int, e.len() as int) =~= ty);
}

/// A separator followed by a text without it starts a last piece holding that text.
pub proof fn lemma_split_last(s1: Seq<char>, c: char, s2: Seq<char>)
    requires
        !s2.contains(c),
    ensures
        split_on(s1 + seq![c] + s2, c) == split_on(s1, c).push(s2),
    decreases s2.len(),
{
    let s = s1 + seq![c] + s2;
    if s2.len() == 0 {
        assert(s.drop_last() =~= s1);
        assert(s2 =~= Seq::<char>::empty());
    } else {
        assert(!s2.drop_last().contains(c)) by {
            if s2.drop_last().contains(c) {
                let k = choose|k: int| 0 <= k < s2.drop_last().len() && s2.drop_last()[k] == c;
                assert(s2[k] == c);
            }
        }
        lemma_split_last(s1, c, s2.drop_last());
        assert(s.drop_last() =~= s1 + seq![c] + s2.drop_last());
        assert(s.last() == s2.last());
        assert(s2.last() != c) by {
            assert(s2[s2.len() - 1] == s2.last());
        }
        assert(s2.drop_last().push(s2.last()) =~= s2);
    }
}

/// A text that neither starts nor ends with a blank is its own trim.
pub proof fn lemma_trim_unchanged(s: Seq<char>)
    requires
        s.len() > 0,
        !is_blank(s[0]),
        !is_blank(s.last()),
    ensures
        trim(s) == s,
{
    assert(trim_start(s) == s);
    assert(trim_end(s) == s);
}

/// A first occurrence is the one that `first_index` names.
pub proof fn lemma_first_index(s: Seq<char>, c: char, i: int)
    requires
        is_first_index(s, c, i),
    ensures
        first_index(s, c) == i,
{
    let f = choose|f: int| is_first_index(s, c, f);
    assert(is_first_index(s, c, f));
    if f < i {
        assert(s[f] != c);
    } else if f > i {
        assert(s[i] != c);
    }
}

/// The pieces of a list whose items are trimmed and hold no comma.
proof fn lemma_two_items(a: Seq<char>, b: Seq<char>)
    requires
        !a.contains(','),
        !b.contains(','),
        trim(a) == a,
        trim(b) == b,
    ensures
        list_items(a + seq![','] + b) == seq![a, b],
{
    lemma_split_single(a, ',');
    lemma_split_last(a, ',', b);
    assert(list_items(a + seq![','] + b) =~= seq![a, b]);
}

/// An entry with no `;` makes up a whole argument list.
proof fn lemma_single_entry(e: Seq<char>)
    requires
        !e.contains(';'),
    ensures
        parse_args(e) == parse_entry(e),
{
    lemma_split_single(e, ';');
    assert(seq![e].drop_last() =~= Seq::<Seq<char>>::empty());
    assert(seq![e].last() == e);
    assert(parse_entries(Seq::<Seq<char>>::empty()) == Seq::<ArgView>::empty());
    assert(parse_entries(seq![e]) == parse_entries(seq![e].drop_last()) + parse_entry(e));
    assert(Seq::<ArgView>::empty() + parse_entry(e) =~= parse_entry(e));
}

/// An empty argument list declares no argument; the client function is written
/// exactly where the path has no placeholder. It has no parameters, and its call
/// passes the path as it stands, no body but the marker for none that a `post`
/// sends, and an empty query list.
pub proof fn lemma_no_arguments(d: DescView)
    requires
        d.fn_args == ""@,
    ensures
        path_matches(d) <==> placeholder_names(d.path).len() == 0,
        parse_args(d.fn_args) == Seq::<ArgView>::empty(),
        param_list(parse_args(d.fn_args)) == Seq::<char>::empty(),
        client_call(d.http_method, d.path, parse_args(d.fn_args), json_inner(d.fn_return_type))
            == operation(d.http_method, response_shape(json_inner(d.fn_return_type))) + "("@
            + "\""@ + d.path + "\""@ + body_expr(ascii_lower(d.http_method), Seq::empty())
            + ", vec![]"@ + wrapper_expr(response_shape(json_inner(d.fn_return_type))) + ")"@,
{
    reveal_strlit("");
    reveal_strlit(", vec![");
    reveal_strlit("]");
    reveal_strlit(", vec![]");
    let e = d.fn_args;
    assert(e.len() == 0);
    assert(!e.contains(';'));
    lemma_single_entry(e);
    assert(!(exists|i: int| is_first_index(e, ':', i)));
    assert(parse_entry(e) =~= Seq::<ArgView>::empty());
    let args = parse_args(d.fn_args);
    assert(form_names(args, FnArgValueForm::Path) =~= Seq::<Seq<char>>::empty());
    assert(form_names(args, FnArgValueForm::Json) =~= Seq::<Seq<char>>::empty());
    assert(form_names(args, FnArgValueForm::QueryString) =~= Seq::<Seq<char>>::empty());
    assert(args.map_values(|a: ArgView| param(a)) =~= Seq::<Seq<char>>::empty());
    let qs = Seq::<Seq<char>>::empty();
    assert(qs.map_values(|q: Seq<char>| query_pair(q)) =~= Seq::<
        Seq<char>,
    >::empty());
    assert(", vec!["@ + join(Seq::<Seq<char>>::empty(), ", "@) + "]"@ =~= ", vec![]"@);
    if placeholder_names(d.path).len() == 0 {
        assert(placeholder_names(d.path) =~= Seq::<Seq<char>>::empty());
    }
}

/// An entry `Json(x):Json<T>` declares one argument `x` of type `T`, sent as
/// the request body.
pub proof fn lemma_body_entry(x: Seq<char>, t: Seq<char>)
    requires
        !x.contains(','),
        !x.contains(':'),
        !x.contains(';'),
        !t.contains(','),
        !t.contains(';'),
        trim(x) == x,
        trim(t) == t,
    ensures
        parse_args("Json("@ + x + "):Json<"@ + t + ">"@) == seq![(x, t, FnArgValueForm::Json)],
{
    reveal_strlit("Json(");
    reveal_strlit("):Json<");
    reveal_strlit(">");
    reveal_strlit("Json<");
    let e = "Json("@ + x + "):Json<"@ + t + ">"@;
    let i: int = x.len() + 6int;
    assert(!e.contains(';')) by {
        if e.contains(';') {
            let k = choose|k: int| 0 <= k < e.len() && e[k] == ';';
            if 5 <= k < 5 + x.len() {
                assert(x[k - 5] == ';');
            } else if i + 6 <= k < i + 6 + t.len() {
                assert(t[k - i - 6] == ';');
            }
        }
    }
    lemma_single_entry(e);
    assert(is_first_index(e, ':', i)) by {
        assert forall|j: int| 0 <= j < i implies e[j] != ':' by {
            if 5 <= j < 5 + x.len() {
                assert(e[j] == x[j - 5]);
            }
        }
    }
    lemma_first_index(e, ':', i);
    let n = e.subrange(0, i);
    assert(n =~= "Json("@ + x + seq![')']);
    lemma_trim_unchanged(n);
    let ty = e.subrange(i + 1, e.len() as int);
    assert(ty =~= "Json<"@ + t + seq!['>']);
    lemma_trim_unchanged(ty);
    assert(starts_with(n, "Json("@)) by {
        assert(n.subrange(0, 5) =~= "Json("@);
    }
    assert(n.subrange(5, n.len() - 1) =~= x);
    assert(names_part(n) == (x, FnArgValueForm::Json));
    assert(starts_with(ty, "Json<"@)) by {
        assert(ty.subrange(0, 5) =~= "Json<"@);
    }
    assert(ty.subrange(5, ty.len() - 1) =~= t);
    assert(types_part(ty) == t);
    lemma_split_single(x, ',');
    lemma_split_single(t, ',');
    assert(list_items(x) =~= seq![x]);
    assert(list_items(t) =~= seq![t]);
    assert(parse_entry(e) =~= seq![(x, t, FnArgValueForm::Json)]);
}

/// An entry `Path((a,b)):Path<(A,B)>` declares the path arguments `a` of type `A`
/// and `b` of type `B`, in that order; the call's URL is then a `format!` that
/// fills the slots of `{a}` and of `{b}` with `a` and then `b`.
#[verifier::rlimit(60)]
pub proof fn lemma_path_pair(
    a: Seq<char>,
    b: Seq<char>,
    ta: Seq<char>,
    tb: Seq<char>,
    path: Seq<char>,
)
    requires
        !a.contains(','),
        !a.contains(':'),
        !a.contains(';'),
        !b.contains(','),
        !b.contains(':'),
        !b.contains(';'),
        !ta.contains(','),
        !ta.contains(';'),
        !tb.contains(','),
        !tb.contains(';'),
        trim(a) == a,
        trim(b) == b,
        trim(ta) == ta,
        trim(tb) == tb,
    ensures
        parse_args("Path(("@ + a + ","@ + b + ")):Path<("@ + ta + ","@ + tb + ")>"@) == seq![
            (a, ta, FnArgValueForm::Path),
            (b, tb, FnArgValueForm::Path),
        ],
        form_names(
            parse_args("Path(("@ + a + ","@ + b + ")):Path<("@ + ta + ","@ + tb + ")>"@),
            FnArgValueForm::Path,
        ) == seq![a, b],
        url_expr(path, seq![a, b]) == "&format!(\""@ + replace_all(
            replace_all(path, "{"@ + a + "}"@, "{}"@),
            "{"@ + b + "}"@,
            "{}"@,
        ) + "\","@ + a + ", "@ + b + ")"@,
{
    reveal_strlit("Path((");
    reveal_strlit(",");
    reveal_strlit(")):Path<(");
    reveal_strlit(")>");
    reveal_strlit("Path(");
    reveal_strlit("Path<");
    reveal_strlit("Json(");
    reveal_strlit("Json<");
    let e = "Path(("@ + a + ","@ + b + ")):Path<("@ + ta + ","@ + tb + ")>"@;
    let inner_n = seq!['('] + a + seq![','] + b + seq![')'];
    let inner_t = seq!['('] + ta + seq![','] + tb + seq![')'];
    let n = "Path("@ + inner_n + seq![')'];
    let ty = "Path<"@ + inner_t + seq!['>'];
    assert(e =~= n + seq![':'] + ty);
    assert(!n.contains(';') && !ty.contains(';')) by {
        assert(!"Path("@.contains(';'));
        assert(!"Path<"@.contains(';'));
        assert(!seq!['('].contains(';'));
        assert(!seq![','].contains(';'));
        assert(!seq![')'].contains(';'));
        assert(!seq!['>'].contains(';'));
        assert(!seq![':'].contains(';'));
        lemma_concat_free(seq!['('], a, ';');
        lemma_concat_free(seq!['('] + a, seq![','], ';');
        lemma_concat_free(seq!['('] + a + seq![','], b, ';');
        lemma_concat_free(seq!['('] + a + seq![','] + b, seq![')'], ';');
        lemma_concat_free("Path("@, inner_n, ';');
        lemma_concat_free("Path("@ + inner_n, seq![')'], ';');
        lemma_concat_free(seq!['('], ta, ';');
        lemma_concat_free(seq!['('] + ta, seq![','], ';');
        lemma_concat_free(seq!['('] + ta + seq![','], tb, ';');
        lemma_concat_free(seq!['('] + ta + seq![','] + tb, seq![')'], ';');
        lemma_concat_free("Path<"@, inner_t, ';');
        lemma_concat_free("Path<"@ + inner_t, seq!['>'], ';');
    }
    assert(!e.contains(';')) by {
        lemma_concat_free(n, seq![':'], ';');
        lemma_concat_free(n + seq![':'], ty, ';');
    }
    assert(!n.contains(':')) by {
        assert(!"Path("@.contains(':'));
        assert(!seq!['('].contains(':'));
        assert(!seq![','].contains(':'));
        assert(!seq![')'].contains(':'));
        lemma_concat_free(seq!['('], a, ':');
        lemma_concat_free(seq!['('] + a, seq![','], ':');
        lemma_concat_free(seq!['('] + a + seq![','], b, ':');
        lemma_concat_free(seq!['('] + a + seq![','] + b, seq![')'], ':');
        lemma_concat_free("Path("@, inner_n, ':');
        lemma_concat_free("Path("@ + inner_n, seq![')'], ':');
    }
    lemma_single_entry(e);
    lemma_entry_colon(n, ty);
    lemma_trim_unchanged(n);
    lemma_trim_unchanged(ty);
    lemma_path_names(n, inner_n);
    lemma_path_types(ty, inner_t);
    assert(unparen(inner_n) =~= a + seq![','] + b);
    assert(unparen(inner_t) =~= ta + seq![','] + tb);
    lemma_two_items(a, b);
    lemma_two_items(ta, tb);
    let args = seq![(a, ta, FnArgValueForm::Path), (b, tb, FnArgValueForm::Path)];
    assert(parse_entry(e) =~= args);
    assert(args.drop_last() =~= seq![(a, ta, FnArgValueForm::Path)]);
    assert(args.drop_last().drop_last() =~= Seq::<ArgView>::empty());
    assert(form_names(args.drop_last().drop_last(), FnArgValueForm::Path) == Seq::<
        Seq<char>,
    >::empty());
    assert(form_names(args.drop_last(), FnArgValueForm::Path) =~= seq![a]);
    assert(form_names(args, FnArgValueForm::Path) =~= seq![a, b]);
    let names = seq![a, b];
    assert(names.drop_last() =~= seq![a]);
    assert(names.drop_last().drop_last() =~= Seq::<Seq<char>>::empty());
    assert(join(names.drop_last(), ", "@) == a);
    assert(names.last() == b);
    assert(join(names, ", "@) == a + ", "@ + b);
    assert(substitute_path(path, names.drop_last().drop_last()) == path);
    assert(substitute_path(path, names.drop_last()) == replace_all(path, "{"@ + a + "}"@, "{}"@));
}

proof fn lemma_path_names(n: Seq<char>, inner: Seq<char>)
    requires
        n == "Path("@ + inner + seq![')'],
    ensures
        names_part(n) == (unparen(inner), FnArgValueForm::Path),
{
    reveal_strlit("Path(");
    reveal_strlit("Json(");
    assert(!starts_with(n, "Json("@)) by {
        assert(n.subrange(0, 5)[0] != "Json("@[0]);
    }
    assert(n.subrange(0, 5) =~= "Path("@);
    assert(n.subrange(5, n.len() - 1) =~= inner);
}

proof fn lemma_path_types(ty: Seq<char>, inner: Seq<char>)
    requires
        ty == "Path<"@ + inner + seq!['>'],
    ensures
        types_part(ty) == unparen(inner),
{
    reveal_strlit("Path<");
    reveal_strlit("Json<");
    assert(!starts_with(ty, "Json<"@)) by {
        assert(ty.subrange(0, 5)[0] != "Json<"@[0]);
    }
    assert(ty.subrange(0, 5) =~= "Path<"@);
    assert(ty.subrange(5, ty.len() - 1) =~= inner);
}

/// A return type `ApiResponse<T>` or `PagingResponse<T>` has payload `T`, as it
/// has inside `Json<..>`; the first is a single item, the second a page.
pub proof fn lemma_wrapped_return(inner: Seq<char>)
    ensures
        payload_type(json_inner("ApiResponse<"@ + inner + ">"@)) == inner,
        response_shape(json_inner("ApiResponse<"@ + inner + ">"@)) == ResponseShape::SingleItem,
        payload_type(json_inner("PagingResponse<"@ + inner + ">"@)) == inner,
        response_shape(json_inner("PagingResponse<"@ + inner + ">"@)) == ResponseShape::Page,
        payload_type(json_inner("Json<ApiResponse<"@ + inner + ">>"@)) == inner,
        response_shape(json_inner("Json<ApiResponse<"@ + inner + ">>"@))
            == ResponseShape::SingleItem,
        payload_type(json_inner("Json<PagingResponse<"@ + inner + ">>"@)) == inner,
        response_shape(json_inner("Json<PagingResponse<"@ + inner + ">>"@)) == ResponseShape::Page,
{
    reveal_strlit("ApiResponse<");
    reveal_strlit("PagingResponse<");
    reveal_strlit(">");
    reveal_strlit(">>");
    reveal_strlit("Json<");
    reveal_strlit("Json<ApiResponse<");
    reveal_strlit("Json<PagingResponse<");
    let s1 = "ApiResponse<"@ + inner + ">"@;
    assert(!starts_with(s1, "Json<"@)) by {
        assert(s1.subrange(0, 5)[0] != "Json<"@[0]);
    }
    assert(s1.subrange(0, 12) =~= "ApiResponse<"@);
    assert(s1.subrange(12, s1.len() - 1) =~= inner);
    let s2 = "PagingResponse<"@ + inner + ">"@;
    assert(!starts_with(s2, "Json<"@)) by {
        assert(s2.subrange(0, 5)[0] != "Json<"@[0]);
    }
    assert(!starts_with(s2, "ApiResponse<"@)) by {
        assert(s2.subrange(0, 12)[0] != "ApiResponse<"@[0]);
    }
    assert(s2.subrange(0, 15) =~= "PagingResponse<"@);
    assert(s2.subrange(15, s2.len() - 1) =~= inner);
    let s3 = "Json<ApiResponse<"@ + inner + ">>"@;
    assert(s3.subrange(0, 5) =~= "Json<"@);
    assert(s3.subrange(5, s3.len() - 1) =~= s1);
    let s4 = "Json<PagingResponse<"@ + inner + ">>"@;
    assert(s4.subrange(0, 5) =~= "Json<"@);
    assert(s4.subrange(5, s4.len() - 1) =~= s2);
}

/// A return type in none of the known wrappers is its own payload, and the
/// response is plain.
pub proof fn lemma_unwrapped_return(t: Seq<char>)
    requires
        strip_wrapper(t, "Json<"@, '>') is None,
        strip_wrapper(t, "ApiResponse<"@, '>') is None,
        strip_wrapper(t, "PagingResponse<"@, '>') is None,
    ensures
        payload_type(json_inner(t)) == t,
        response_shape(json_inner(t)) == ResponseShape::Plain,
{
}

/// Generating twice from the same route descriptions gives the same module
/// sources and the same failures, byte for byte.
pub proof fn lemma_generation_repeatable(
    http_client: Seq<char>,
    api_error: Seq<char>,
    response_wrapper: Seq<char>,
    ds: Seq<DescView>,
    first: GeneratedClients,
    second: GeneratedClients,
)
    requires
        module_views(first.modules@) == expected_modules(
            http_client,
            api_error,
            response_wrapper,
            ds,
        ),
        failure_views(first.failures@) == failed_routes(ds),
        module_views(second.modules@) == expected_modules(
            http_client,
            api_error,
            response_wrapper,
            ds,
        ),
        failure_views(second.failures@) == failed_routes(ds),
    ensures
        module_views(first.modules@) == module_views(second.modules@),
        failure_views(first.failures@) == failure_views(second.failures@),
{
}

} // verus!
