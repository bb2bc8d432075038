//! Grouping route descriptions by module and writing one client source per module.
use vstd::prelude::*;
use vstd::string::*;

use crate::codegen::{fn_code, generate_fn_code, path_matches, CodegenError};
use crate::model::{ApiClientCodeGenConf, DescView, RouteMethodDesc};
use crate::imports::{is_server_only, is_server_only_exec};
use crate::text::{contains_string, split_on, split_str, trim, trim_str, views};

verus! {

/// The text of each route description.
pub open spec fn desc_views(v: Seq<RouteMethodDesc>) -> Seq<DescView> {
    v.map_values(|d: RouteMethodDesc| d@)
}

/// `acc` with `x` at its end, unless it holds `x` already.
pub open spec fn push_new(acc: Seq<Seq<char>>, x: Seq<char>) -> Seq<Seq<char>> {
    if acc.contains(x) {
        acc
    } else {
        acc.push(x)
    }
}

/// `acc` extended by the trimmed statements that are neither empty, server-only nor present.
pub open spec fn add_imports(acc: Seq<Seq<char>>, stmts: Seq<Seq<char>>) -> Seq<Seq<char>>
    decreases stmts.len(),
{
    if stmts.len() == 0 {
        acc
    } else {
        let prev = add_imports(acc, stmts.drop_last());
        let t = trim(stmts.last());
        if t.len() == 0 || is_server_only(t) {
            prev
        } else {
            push_new(prev, t)
        }
    }
}

/// The distinct imports of the routes of module `m`, in order of first use.
pub open spec fn module_imports(ds: Seq<DescView>, m: Seq<char>) -> Seq<Seq<char>>
    decreases ds.len(),
{
    if ds.len() == 0 {
        Seq::empty()
    } else {
        let prev = module_imports(ds.drop_last(), m);
        if ds.last().mod_name == m {
            add_imports(prev, split_on(ds.last().use_statements, ';'))
        } else {
            prev
        }
    }
}

/// The client functions of the routes of module `m`, each followed by a blank line.
pub open spec fn module_fns(ds: Seq<DescView>, m: Seq<char>) -> Seq<char>
    decreases ds.len(),
{
    if ds.len() == 0 {
        Seq::empty()
    } else {
        let prev = module_fns(ds.drop_last(), m);
        if ds.last().mod_name == m && path_matches(ds.last()) {
            prev + fn_code(ds.last()) + "\n\n"@
        } else {
            prev
        }
    }
}

/// One `use` line per import.
pub open spec fn use_lines(imports: Seq<Seq<char>>) -> Seq<char>
    decreases imports.len(),
{
    if imports.len() == 0 {
        Seq::empty()
    } else {
        use_lines(imports.drop_last()) + "use "@ + imports.last() + ";\n"@
    }
}

/// The client source of module `m`: the client-side imports, the module's own
/// imports, and its client functions.
pub open spec fn module_source(
    http_client: Seq<char>,
    api_error: Seq<char>,
    response_wrapper: Seq<char>,
    ds: Seq<DescView>,
    m: Seq<char>,
) -> Seq<char> {
    "use "@ + http_client + ";\n"@ + "use "@ + api_error + ";\n"@ + "use "@ + response_wrapper
        + ";\n"@ + use_lines(module_imports(ds, m)) + "\n\n"@ + module_fns(ds, m)
}

/// The module names, in order of first appearance.
pub open spec fn module_names(ds: Seq<DescView>) -> Seq<Seq<char>>
    decreases ds.len(),
{
    if ds.len() == 0 {
        Seq::empty()
    } else {
        push_new(module_names(ds.drop_last()), ds.last().mod_name)
    }
}

/// The module and function names of the routes that get no client function.
pub open spec fn failed_routes(ds: Seq<DescView>) -> Seq<(Seq<char>, Seq<char>)>
    decreases ds.len(),
{
    if ds.len() == 0 {
        Seq::empty()
    } else {
        let prev = failed_routes(ds.drop_last());
        if path_matches(ds.last()) {
            prev
        } else {
            prev.push((ds.last().mod_name, ds.last().fn_name))
        }
    }
}

/// The name and client source of each module, in order of first appearance.
pub open spec fn expected_modules(
    http_client: Seq<char>,
    api_error: Seq<char>,
    response_wrapper: Seq<char>,
    ds: Seq<DescView>,
) -> Seq<(Seq<char>, Seq<char>)> {
    module_names(ds).map_values(
        |m: Seq<char>| (m, module_source(http_client, api_error, response_wrapper, ds, m)),
    )
}

/// The name and text of each module source.
pub open spec fn module_views(ms: Seq<ModuleSource>) -> Seq<(Seq<char>, Seq<char>)> {
    ms.map_values(|s: ModuleSource| (s.mod_name@, s.source@))
}

/// The module and function name of each failure.
pub open spec fn failure_views(fs: Seq<FailedRoute>) -> Seq<(Seq<char>, Seq<char>)> {
    fs.map_values(|f: FailedRoute| (f.mod_name@, f.fn_name@))
}

/// The client source of one module.
pub struct ModuleSource {
    pub mod_name: String,
    pub source: String,
}

/// A route that got no client function, and why.
pub struct FailedRoute {
    pub mod_name: String,
    pub fn_name: String,
    pub error: CodegenError,
}

/// The client sources of all modules, and the routes left out of them.
pub struct GeneratedClients {
    pub modules: Vec<ModuleSource>,
    pub failures: Vec<FailedRoute>,
}

fn push_new_exec(acc: &mut Vec<String>, x: String)
    ensures
        views(final(acc)@) == push_new(views(old(acc)@), x@),
{
    if !contains_string(acc, &x) {
        let ghost before = acc@;
        acc.push(x);
        assert(views(acc@) =~= views(before).push(x@));
    }
}

fn add_imports_exec(acc: &mut Vec<String>, use_statements: &str)
    ensures
        views(final(acc)@) == add_imports(views(old(acc)@), split_on(use_statements@, ';')),
{
    let stmts = split_str(use_statements, ';');
    let ghost start = views(acc@);
    let mut k: usize = 0;
    while k < stmts.len()
        invariant
            k <= stmts@.len(),
            views(stmts@) == split_on(use_statements@, ';'),
            views(acc@) == add_imports(start, views(stmts@).take(k as int)),
        decreases stmts@.len() - k,
    {
        assert(views(stmts@).take(k as int + 1).drop_last() =~= views(stmts@).take(k as int));
        assert(views(stmts@).take(k as int + 1).last() == stmts@[k as int]@);
        let t = trim_str(stmts[k].as_str());
        if t.unicode_len() > 0 && !is_server_only_exec(&t) {
            push_new_exec(acc, t);
        }
        k = k + 1;
    }
    assert(views(stmts@).take(k as int) =~= views(stmts@));
}

/// The client source of module `m`.
fn module_source_exec(conf: &ApiClientCodeGenConf, descs: &Vec<RouteMethodDesc>, m: &String) -> (r:
    String)
    ensures
        r@ == module_source(
            conf.http_client_path@,
            conf.api_error_path@,
            conf.response_wrapper_path@,
            desc_views(descs@),
            m@,
        ),
{
    let ghost ds = desc_views(descs@);
    let mut imports: Vec<String> = Vec::new();
    let mut fns = String::new();
    let mut k: usize = 0;
    assert(views(imports@) =~= module_imports(ds.take(0), m@));
    while k < descs.len()
        invariant
            k <= descs@.len(),
            ds == desc_views(descs@),
            views(imports@) == module_imports(ds.take(k as int), m@),
            fns@ == module_fns(ds.take(k as int), m@),
        decreases descs@.len() - k,
    {
        assert(ds.take(k as int + 1).drop_last() =~= ds.take(k as int));
        assert(ds.take(k as int + 1).last() == descs@[k as int]@);
        let d = &descs[k];
        if d.mod_name == *m {
            add_imports_exec(&mut imports, d.use_statements.as_str());
            match generate_fn_code(d) {
                Ok(code) => {
                    fns.append(code.as_str());
                    fns.append("\n\n");
                },
                Err(_) => {},
            }
        }
        k = k + 1;
    }
    assert(ds.take(k as int) =~= ds);
    let mut out = String::from_str("use ");
    out.append(conf.http_client_path.as_str());
    out.append(";\n");
    out.append("use ");
    out.append(conf.api_error_path.as_str());
    out.append(";\n");
    out.append("use ");
    out.append(conf.response_wrapper_path.as_str());
    out.append(";\n");
    let ghost head = out@;
    let mut j: usize = 0;
    while j < imports.len()
        invariant
            j <= imports@.len(),
            out@ == head + use_lines(views(imports@).take(j as int)),
        decreases imports@.len() - j,
    {
        out.append("use ");
        out.append(imports[j].as_str());
        out.append(";\n");
        j = j + 1;
        assert(views(imports@).take(j as int).drop_last() =~= views(imports@).take(j as int - 1));
        assert(views(imports@).take(j as int).last() == imports@[j as int - 1]@);
    }
    assert(views(imports@).take(j as int) =~= views(imports@));
    out.append("\n\n");
    out.append(fns.as_str());
    out
}

/// Groups the routes by module, in order of first appearance, and writes the
/// client source of each module; a route whose path placeholders are not its
/// path arguments gets no function and is listed among the failures.
pub fn generate_client_sources(conf: &ApiClientCodeGenConf, descs: &Vec<RouteMethodDesc>) -> (r:
    GeneratedClients)
    ensures
        module_views(r.modules@) == expected_modules(
            conf.http_client_path@,
            conf.api_error_path@,
            conf.response_wrapper_path@,
            desc_views(descs@),
        ),
        failure_views(r.failures@) == failed_routes(desc_views(descs@)),
        forall|i: int|
            0 <= i < r.failures@.len() ==> #[trigger] r.failures@[i].error
                == CodegenError::PathPlaceholderMismatch,
{
    let ghost ds = desc_views(descs@);
    let mut names: Vec<String> = Vec::new();
    let mut failures: Vec<FailedRoute> = Vec::new();
    let mut k: usize = 0;
    assert(views(names@) =~= module_names(ds.take(0)));
    assert(failures@.map_values(|f: FailedRoute| (f.mod_name@, f.fn_name@)) =~= failed_routes(
        ds.take(0),
    ));
    while k < descs.len()
        invariant
            k <= descs@.len(),
            ds == desc_views(descs@),
            views(names@) == module_names(ds.take(k as int)),
            failures@.map_values(|f: FailedRoute| (f.mod_name@, f.fn_name@)) == failed_routes(
                ds.take(k as int),
            ),
            forall|i: int|
                0 <= i < failures@.len() ==> #[trigger] failures@[i].error
                    == CodegenError::PathPlaceholderMismatch,
        decreases descs@.len() - k,
    {
        assert(ds.take(k as int + 1).drop_last() =~= ds.take(k as int));
        assert(ds.take(k as int + 1).last() == descs@[k as int]@);
        let d = &descs[k];
        push_new_exec(&mut names, d.mod_name.clone());
        match generate_fn_code(d) {
            Ok(_) => {},
            Err(e) => {
                let ghost before = failures@;
                let f = FailedRoute { mod_name: d.mod_name.clone(), fn_name: d.fn_name.clone(), error: e };
                failures.push(f);
                assert(failures@.map_values(|f: FailedRoute| (f.mod_name@, f.fn_name@)) =~= before.map_values(
                    |f: FailedRoute| (f.mod_name@, f.fn_name@),
                ).push((d.mod_name@, d.fn_name@)));
            },
        }
        k = k + 1;
    }
    assert(ds.take(k as int) =~= ds);
    let mut modules: Vec<ModuleSource> = Vec::new();
    let mut j: usize = 0;
    while j < names.len()
        invariant
            j <= names@.len(),
            ds == desc_views(descs@),
            modules@.map_values(|s: ModuleSource| s.mod_name@) =~= views(names@).take(j as int),
            forall|i: int|
                0 <= i < modules@.len() ==> #[trigger] modules@[i].source@ == module_source(
                    conf.http_client_path@,
                    conf.api_error_path@,
                    conf.response_wrapper_path@,
                    ds,
                    modules@[i].mod_name@,
                ),
        decreases names@.len() - j,
    {
        let source = module_source_exec(conf, descs, &names[j]);
        let ghost before = modules@;
        let ms = ModuleSource { mod_name: names[j].clone(), source };
        modules.push(ms);
        j = j + 1;
        assert(views(names@).take(j as int) =~= views(names@).take(j as int - 1).push(
            names@[j as int - 1]@,
        ));
        assert(modules@.map_values(|s: ModuleSource| s.mod_name@) =~= before.map_values(
            |s: ModuleSource| s.mod_name@,
        ).push(ms.mod_name@));
    }
    assert(views(names@).take(j as int) =~= views(names@));
    assert forall|i: int| 0 <= i < modules@.len() implies module_views(modules@)[i] == expected_modules(
        conf.http_client_path@,
        conf.api_error_path@,
        conf.response_wrapper_path@,
        ds,
    )[i] by {
        assert(modules@.map_values(|s: ModuleSource| s.mod_name@)[i] == modules@[i].mod_name@);
    }
    assert(module_views(modules@) =~= expected_modules(
        conf.http_client_path@,
        conf.api_error_path@,
        conf.response_wrapper_path@,
        ds,
    ));
    assert(failure_views(failures@) =~= failures@.map_values(
        |f: FailedRoute| (f.mod_name@, f.fn_name@),
    ));
    GeneratedClients { modules, failures }
}

} // verus!
