use axum_route_helper::imports::{filter_use_statements, select_imports, type_tokens, uses_to_map};
use axum_route_helper::route::{RouteDef, RouteRegistry, UseCollector};
use axum_route_helper::text::{replace_str, split_str, to_ascii_lower, trim_str};
use axum_route_helper::RouteMethodDesc;

fn s(x: &str) -> String {
    x.to_string()
}

#[test]
fn pruning_keeps_only_referenced_group_member() {
    let map = uses_to_map(vec![s("use a::B;"), s("use a::{C,D};")]);
    let kept = filter_use_statements(map, vec![s("Json(c):Json<C>")], s("()"));
    assert_eq!(kept, vec![s("a::C")]);
}

#[test]
fn uses_to_map_entries() {
    let map = uses_to_map(vec![
        s("use shared::entity::Product;"),
        s("use shared::{ request::Req , Other };"),
        s("not a use"),
        s("use other::Product;"),
    ]);
    assert_eq!(
        map,
        vec![
            (s("Product"), s("other::Product")),
            (s("Req"), s("shared::request::Req")),
            (s("Other"), s("shared::Other")),
        ]
    );
}

#[test]
fn tokens_of_signature_texts() {
    let toks = type_tokens(&vec![s("Json(p):Json<shared::Product>"), s("Vec<u8>")]);
    assert_eq!(toks, vec![s("Json"), s("p"), s("Json"), s("shared::Product"), s("Vec"), s("u8")]);
}

#[test]
fn select_imports_in_entry_order() {
    let entries = vec![(s("A"), s("x::A")), (s("B"), s("x::B")), (s("C"), s("y::C"))];
    assert_eq!(select_imports(&entries, &vec![s("C"), s("A"), s("Z")]), vec![s("x::A"), s("y::C")]);
    assert!(select_imports(&entries, &vec![]).is_empty());
}

#[test]
fn route_options() {
    let mut def = RouteDef::new(s("/api/x"));
    def.set_option(s("method"), s("post"));
    def.set_option(s("tag"), s("a"));
    def.set_option(s("tag"), s("b"));
    assert_eq!(def.method, "post");
    assert_eq!(def.options, vec![(s("tag"), s("b"))]);
    assert!(def.is_api());
    def.set_option(s("non_api"), s("true"));
    assert!(!def.is_api());
}

#[test]
fn route_description() {
    let mut def = RouteDef::new(s("/api/p/{id}"));
    def.set_option(s("method"), s("get"));
    let d = def.describe(
        s("product"),
        s("get_p"),
        &vec![s("Path(id):Path<u64>"), s("q:String")],
        s("Json<P>"),
        &vec![s("shared::P"), s("axum::Json")],
    );
    assert_eq!(d.mod_name, "product");
    assert_eq!(d.path, "/api/p/{id}");
    assert_eq!(d.http_method, "get");
    assert_eq!(d.fn_args, "Path(id):Path<u64>;q:String");
    assert_eq!(d.use_statements, "shared::P;axum::Json");
}

#[test]
fn collector_reads_use_lines() {
    let c = UseCollector::new();
    assert_eq!(c.mod_name, "");
    assert!(c.uses.is_empty());
    let mut c = UseCollector::for_module(s("product"));
    c.collect_source_uses("use a::B;\r\n  use c::{D, E};\nfn f() {}\n// use x;\n");
    assert_eq!(c.uses, vec![s("use a::B;"), s("use c::{D, E};")]);
    assert_eq!(c.mod_name, "product");
}

#[test]
fn registry_keeps_order() {
    let mut r = RouteRegistry::new();
    assert!(r.all().is_empty());
    for name in ["a", "b", "c"] {
        r.register(RouteMethodDesc::new(s("m"), s("/"), s("get"), s(name), s(""), s("()"), s("")));
    }
    let names: Vec<&str> = r.all().iter().map(|d| d.fn_name.as_str()).collect();
    assert_eq!(names, vec!["a", "b", "c"]);
}

#[test]
fn text_helpers() {
    assert_eq!(trim_str(" \t x y \r\n"), "x y");
    assert_eq!(split_str("a;;b", ';'), vec![s("a"), s(""), s("b")]);
    assert_eq!(split_str("", ';'), vec![s("")]);
    assert_eq!(replace_str("{a}/{a}/{b}", "{a}", "{}"), "{}/{}/{b}");
    assert_eq!(to_ascii_lower("PoSt"), "post");
}

#[test]
fn uses_to_map_reads_token_stream_text() {
    let map = uses_to_map(vec![s("use a :: { C , D } ;"), s("use shared :: entity :: Product ;")]);
    assert_eq!(
        map,
        vec![
            (s("C"), s("a::C")),
            (s("D"), s("a::D")),
            (s("Product"), s("shared::entity::Product")),
        ]
    );
}

#[test]
fn pruning_drops_server_only_imports() {
    let map = uses_to_map(vec![
        s("use axum::Json;"),
        s("use axum::extract::{Path, Query};"),
        s("use shared::Product;"),
    ]);
    let kept = filter_use_statements(
        map,
        vec![s("Json(p):Json<Product>"), s("Path(id):Path<u64>"), s("Query(q):Query<Q>")],
        s("Json<Product>"),
    );
    assert_eq!(kept, vec![s("shared::Product")]);
}

#[test]
fn pruning_gives_each_path_once() {
    let entries = vec![(s("A"), s("x::A")), (s("Alias"), s("x::A")), (s("Json"), s("axum::Json"))];
    assert_eq!(select_imports(&entries, &vec![s("A"), s("Alias"), s("Json")]), vec![s("x::A")]);
}

#[test]
fn trim_removes_unicode_white_space() {
    assert_eq!(trim_str("\u{b}\u{c}\u{a0} x \u{3000}\u{2009}"), "x");
    assert_eq!(trim_str("\u{200b}x"), "\u{200b}x");
}
