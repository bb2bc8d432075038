//! Writing the source of one client function from a route description.
use vstd::prelude::*;
use vstd::string::*;

use crate::model::{arg_views, ArgView, DescView, FnArgInfo, FnArgValueForm, RouteMethodDesc};
use crate::signature::{
    json_inner, parse_args, parts_fn_args_names_and_types, payload_type, response_shape,
    response_shape_exec, return_payload, strip_json, ResponseShape,
};
use crate::text::{
    ascii_lower, join, join_strs, lemma_split_nonempty, replace_all, replace_str, split_on,
    split_str, to_ascii_lower, trim, trim_str, views,
};

verus! {

/// Why no client function was written for a route.
#[derive(Debug, Clone, Copy, PartialEq, Eq, Structural)]
pub enum CodegenError {
    /// The `{..}` placeholders of the path are not the path arguments, in order.
    PathPlaceholderMismatch,
}

/// The names of the arguments of the given form, in order.
pub open spec fn form_names(args: Seq<ArgView>, form: FnArgValueForm) -> Seq<Seq<char>>
    decreases args.len(),
{
    if args.len() == 0 {
        Seq::empty()
    } else {
        let prev = form_names(args.drop_last(), form);
        if args.last().2 == form {
            prev.push(args.last().0)
        } else {
            prev
        }
    }
}

/// The path with each `{name}` of the given names made a positional `{}` slot.
pub open spec fn substitute_path(path: Seq<char>, names: Seq<Seq<char>>) -> Seq<char>
    decreases names.len(),
{
    if names.len() == 0 {
        path
    } else {
        replace_all(
            substitute_path(path, names.drop_last()),
            "{"@ + names.last() + "}"@,
            "{}"@,
        )
    }
}

/// The names written between `{` and `}` in a path, in order.
pub open spec fn placeholder_names(path: Seq<char>) -> Seq<Seq<char>> {
    let pieces = split_on(path, '{');
    Seq::new((pieces.len() - 1) as nat, |k: int| split_on(pieces[k + 1], '}')[0])
}

/// The URL argument of the call: the path itself, or a `format!` over the path arguments.
pub open spec fn url_expr(path: Seq<char>, names: Seq<Seq<char>>) -> Seq<char> {
    if names.len() == 0 {
        "\""@ + path + "\""@
    } else {
        "&format!(\""@ + substitute_path(path, names) + "\","@ + join(names, ", "@) + ")"@
    }
}

/// The body argument: only a `post` sends one, the first body argument or none.
pub open spec fn body_expr(method: Seq<char>, bodies: Seq<Seq<char>>) -> Seq<char> {
    if method == "post"@ {
        if bodies.len() > 0 {
            ", &Some("@ + bodies[0] + ")"@
        } else {
            ", &Option::<i8>::None"@
        }
    } else {
        Seq::empty()
    }
}

/// One query parameter as a `("name",name)` pair.
pub open spec fn query_pair(q: Seq<char>) -> Seq<char> {
    "(\""@ + q + "\","@ + q + ")"@
}

/// The query parameters as a vector of pairs.
pub open spec fn query_expr(qs: Seq<Seq<char>>) -> Seq<char> {
    ", vec!["@ + join(qs.map_values(|q: Seq<char>| query_pair(q)), ", "@) + "]"@
}

/// The argument that selects how the response is unwrapped; paged responses have none.
pub open spec fn wrapper_expr(shape: ResponseShape) -> Seq<char> {
    match shape {
        ResponseShape::Page => Seq::empty(),
        ResponseShape::SingleItem => ", ResponseWrapper::ApiResponse"@,
        ResponseShape::Plain => ", ResponseWrapper::Nothing"@,
    }
}

/// The client operation: the lowercase method, with `_paging` for paged responses.
pub open spec fn operation(method: Seq<char>, shape: ResponseShape) -> Seq<char> {
    if shape == ResponseShape::Page {
        ascii_lower(method) + "_paging"@
    } else {
        ascii_lower(method)
    }
}

/// The text of the client call for a route.
pub open spec fn client_call(
    method: Seq<char>,
    path: Seq<char>,
    args: Seq<ArgView>,
    ret: Seq<char>,
) -> Seq<char> {
    operation(method, response_shape(ret)) + "("@ + url_expr(
        path,
        form_names(args, FnArgValueForm::Path),
    ) + body_expr(ascii_lower(method), form_names(args, FnArgValueForm::Json)) + query_expr(
        form_names(args, FnArgValueForm::QueryString),
    ) + wrapper_expr(response_shape(ret)) + ")"@
}

/// One parameter as `name: type`.
pub open spec fn param(a: ArgView) -> Seq<char> {
    a.0 + ": "@ + a.1
}

/// The parameter list of the client function.
pub open spec fn param_list(args: Seq<ArgView>) -> Seq<char> {
    join(args.map_values(|a: ArgView| param(a)), ", "@)
}

/// Whether the placeholders of the route's path are its path arguments, in order.
pub open spec fn path_matches(d: DescView) -> bool {
    placeholder_names(d.path) == form_names(parse_args(d.fn_args), FnArgValueForm::Path)
}

/// The source of the client function for a route.
pub open spec fn fn_code(d: DescView) -> Seq<char> {
    let args = parse_args(d.fn_args);
    let t = json_inner(d.fn_return_type);
    "pub async fn "@ + d.fn_name + "("@ + param_list(args) + ") -> Result<"@ + payload_type(t)
        + ", ApiError> {\n        let result = HttpClient::"@ + client_call(
        d.http_method,
        d.path,
        args,
        t,
    ) + ".await?;\n        Ok(result)\n    }"@
}

/// The names of the arguments of the given form, in order.
pub fn names_of_form(args: &Vec<FnArgInfo>, form: FnArgValueForm) -> (r: Vec<String>)
    ensures
        views(r@) == form_names(arg_views(args@), form),
{
    let mut r: Vec<String> = Vec::new();
    let mut k: usize = 0;
    while k < args.len()
        invariant
            k <= args@.len(),
            views(r@) == form_names(arg_views(args@).take(k as int), form),
        decreases args@.len() - k,
    {
        let ghost before = r@;
        assert(arg_views(args@).take(k as int + 1).drop_last() =~= arg_views(args@).take(
            k as int,
        ));
        assert(arg_views(args@).take(k as int + 1).last() == args@[k as int]@);
        if args[k].value_form == form {
            r.push(args[k].name.clone());
            assert(views(r@) =~= views(before).push(args@[k as int].name@));
        }
        k = k + 1;
    }
    assert(arg_views(args@).take(k as int) =~= arg_views(args@));
    r
}

fn substitute_path_exec(path: &str, names: &Vec<String>) -> (r: String)
    ensures
        r@ == substitute_path(path@, views(names@)),
{
    let mut out = String::from_str(path);
    let mut k: usize = 0;
    while k < names.len()
        invariant
            k <= names@.len(),
            out@ == substitute_path(path@, views(names@).take(k as int)),
        decreases names@.len() - k,
    {
        let mut pattern = String::from_str("{");
        pattern.append(names[k].as_str());
        pattern.append("}");
        let slot = "{}";
        proof {
            reveal_strlit("}");
        }
        out = replace_str(out.as_str(), pattern.as_str(), slot);
        k = k + 1;
        assert(views(names@).take(k as int).drop_last() =~= views(names@).take(k as int - 1));
        assert(views(names@).take(k as int).last() == names@[k as int - 1]@);
    }
    assert(views(names@).take(k as int) =~= views(names@));
    out
}

/// The names written between `{` and `}` in a path, in order.
pub fn placeholders(path: &str) -> (r: Vec<String>)
    ensures
        views(r@) == placeholder_names(path@),
{
    let pieces = split_str(path, '{');
    proof {
        lemma_split_nonempty(path@, '{');
    }
    let mut r: Vec<String> = Vec::new();
    let mut k: usize = 1;
    while k < pieces.len()
        invariant
            1 <= k <= pieces@.len(),
            views(pieces@) == split_on(path@, '{'),
            views(r@) =~= placeholder_names(path@).take(k - 1),
        decreases pieces@.len() - k,
    {
        let ghost before = r@;
        let inner = split_str(pieces[k].as_str(), '}');
        proof {
            lemma_split_nonempty(pieces@[k as int]@, '}');
        }
        assert(views(pieces@)[k as int] == pieces@[k as int]@);
        assert(views(inner@)[0] == inner@[0]@);
        r.push(inner[0].clone());
        k = k + 1;
        assert(views(r@) =~= views(before).push(inner@[0]@));
    }
    r
}

fn same_strings(a: &Vec<String>, b: &Vec<String>) -> (r: bool)
    ensures
        r == (views(a@) == views(b@)),
{
    if a.len() != b.len() {
        assert(views(a@).len() != views(b@).len());
        return false;
    }
    let mut k: usize = 0;
    while k < a.len()
        invariant
            k <= a@.len(),
            a@.len() == b@.len(),
            forall|j: int| 0 <= j < k ==> a@[j]@ == b@[j]@,
        decreases a@.len() - k,
    {
        if a[k] != b[k] {
            assert(views(a@)[k as int] != views(b@)[k as int]);
            return false;
        }
        k = k + 1;
    }
    assert(views(a@) =~= views(b@));
    true
}

fn url_expr_exec(path: &str, names: &Vec<String>) -> (r: String)
    ensures
        r@ == url_expr(path@, views(names@)),
{
    if names.len() == 0 {
        let mut out = String::from_str("\"");
        out.append(path);
        out.append("\"");
        out
    } else {
        let mut out = String::from_str("&format!(\"");
        let sub = substitute_path_exec(path, names);
        out.append(sub.as_str());
        out.append("\",");
        let joined = join_strs(names, ", ");
        out.append(joined.as_str());
        out.append(")");
        out
    }
}

fn query_expr_exec(qs: &Vec<String>) -> (r: String)
    ensures
        r@ == query_expr(views(qs@)),
{
    let mut pairs: Vec<String> = Vec::new();
    let mut k: usize = 0;
    while k < qs.len()
        invariant
            k <= qs@.len(),
            views(pairs@) =~= views(qs@).take(k as int).map_values(
                |q: Seq<char>| query_pair(q),
            ),
        decreases qs@.len() - k,
    {
        let ghost before = pairs@;
        let mut p = String::from_str("(\"");
        p.append(qs[k].as_str());
        p.append("\",");
        p.append(qs[k].as_str());
        p.append(")");
        assert(views(qs@)[k as int] == qs@[k as int]@);
        pairs.push(p);
        k = k + 1;
        assert(views(pairs@) =~= views(before).push(p@));
    }
    assert(views(qs@).take(k as int) =~= views(qs@));
    let mut out = String::from_str(", vec![");
    let joined = join_strs(&pairs, ", ");
    out.append(joined.as_str());
    out.append("]");
    out
}

/// The text of the client call for a route: the operation, the URL, the body
/// (for `post`), the query parameters and the response unwrapping.
pub fn generate_http_client_call(
    http_method: String,
    path: String,
    fn_args_info: Vec<FnArgInfo>,
    fn_return_type: String,
) -> (r: String)
    ensures
        r@ == client_call(http_method@, path@, arg_views(fn_args_info@), fn_return_type@),
{
    let shape = response_shape_exec(fn_return_type.as_str());
    let method = to_ascii_lower(http_method.as_str());
    let path_names = names_of_form(&fn_args_info, FnArgValueForm::Path);
    let body_names = names_of_form(&fn_args_info, FnArgValueForm::Json);
    let query_names = names_of_form(&fn_args_info, FnArgValueForm::QueryString);

    let mut out = method.clone();
    if shape == ResponseShape::Page {
        out.append("_paging");
    }
    out.append("(");
    let url = url_expr_exec(path.as_str(), &path_names);
    out.append(url.as_str());
    let post = String::from_str("post");
    let ghost body_text = body_expr(method@, views(body_names@));
    if method == post {
        if body_names.len() > 0 {
            out.append(", &Some(");
            assert(views(body_names@)[0] == body_names@[0]@);
            out.append(body_names[0].as_str());
            out.append(")");
        } else {
            out.append(", &Option::<i8>::None");
        }
    } else {
        assert(body_text =~= Seq::<char>::empty());
    }
    let query = query_expr_exec(&query_names);
    out.append(query.as_str());
    if shape == ResponseShape::SingleItem {
        out.append(", ResponseWrapper::ApiResponse");
    } else if shape == ResponseShape::Plain {
        out.append(", ResponseWrapper::Nothing");
    }
    out.append(")");
    assert(out@ =~= client_call(
        http_method@,
        path@,
        arg_views(fn_args_info@),
        fn_return_type@,
    ));
    out
}

/// The parameter list of the client function, `name: type` joined by `, `.
fn param_list_exec(args: &Vec<FnArgInfo>) -> (r: String)
    ensures
        r@ == param_list(arg_views(args@)),
{
    let mut ps: Vec<String> = Vec::new();
    let mut k: usize = 0;
    while k < args.len()
        invariant
            k <= args@.len(),
            views(ps@) =~= arg_views(args@).take(k as int).map_values(|a: ArgView| param(a)),
        decreases args@.len() - k,
    {
        let ghost before = ps@;
        let mut p = args[k].name.clone();
        p.append(": ");
        p.append(args[k].arg_type.as_str());
        ps.push(p);
        k = k + 1;
        assert(views(ps@) =~= views(before).push(p@));
    }
    assert(arg_views(args@).take(k as int) =~= arg_views(args@));
    join_strs(&ps, ", ")
}

/// The source of the client function for a route, or the reason there is none.
pub fn generate_fn_code(desc: &RouteMethodDesc) -> (r: Result<String, CodegenError>)
    ensures
        r is Ok <==> path_matches(desc@),
        r matches Ok(s) ==> s@ == fn_code(desc@),
{
    let args = parts_fn_args_names_and_types(desc.fn_args.clone());
    let path_names = names_of_form(&args, FnArgValueForm::Path);
    let slots = placeholders(desc.path.as_str());
    if !same_strings(&slots, &path_names) {
        return Err(CodegenError::PathPlaceholderMismatch);
    }
    let (payload, _shape) = return_payload(desc.fn_return_type.as_str());
    let t = strip_json(desc.fn_return_type.as_str());
    let params = param_list_exec(&args);
    let call = generate_http_client_call(desc.http_method.clone(), desc.path.clone(), args, t);
    let mut out = String::from_str("pub async fn ");
    out.append(desc.fn_name.as_str());
    out.append("(");
    out.append(params.as_str());
    out.append(") -> Result<");
    out.append(payload.as_str());
    out.append(", ApiError> {\n        let result = HttpClient::");
    out.append(call.as_str());
    out.append(".await?;\n        Ok(result)\n    }");
    assert(out@ =~= fn_code(desc@));
    Ok(out)
}

/// The `("name",name)` pairs of a comma-separated list of `name:type` items;
/// an empty item, or one that is not exactly `name:type`, gives no pair.
pub open spec fn arg_pairs(items: Seq<Seq<char>>) -> Seq<Seq<char>>
    decreases items.len(),
{
    if items.len() == 0 {
        Seq::empty()
    } else {
        let prev = arg_pairs(items.drop_last());
        let t = trim(items.last());
        let parts = split_on(t, ':');
        if t.len() == 0 || parts.len() != 2 {
            prev
        } else {
            prev.push(query_pair(trim(parts[0])))
        }
    }
}

/// The query pairs of a list of typed arguments `a:A, b:B`, joined by `,`.
pub fn generate_http_client_args(fn_args: &str) -> (r: String)
    ensures
        r@ == join(arg_pairs(split_on(fn_args@, ',')), ","@),
{
    let items = split_str(fn_args, ',');
    let mut pairs: Vec<String> = Vec::new();
    let mut k: usize = 0;
    while k < items.len()
        invariant
            k <= items@.len(),
            views(items@) == split_on(fn_args@, ','),
            views(pairs@) == arg_pairs(views(items@).take(k as int)),
        decreases items@.len() - k,
    {
        assert(views(items@).take(k as int + 1).drop_last() =~= views(items@).take(k as int));
        assert(views(items@).take(k as int + 1).last() == items@[k as int]@);
        let t = trim_str(items[k].as_str());
        let parts = split_str(t.as_str(), ':');
        if t.unicode_len() > 0 && parts.len() == 2 {
            let ghost before = pairs@;
            assert(views(parts@)[0] == parts@[0]@);
            let name = trim_str(parts[0].as_str());
            let mut p = String::from_str("(\"");
            p.append(name.as_str());
            p.append("\",");
            p.append(name.as_str());
            p.append(")");
            pairs.push(p);
            assert(views(pairs@) =~= views(before).push(p@));
        }
        k = k + 1;
    }
    assert(views(items@).take(k as int) =~= views(items@));
    join_strs(&pairs, ",")
}

} // verus!
