//! The decisions of the route attribute and of the module attribute: options
//! of a route, the description a route registers, the `use` lines of a module,
//! and the registry that gathers the descriptions.
use vstd::prelude::*;
use vstd::string::*;

use crate::generate::desc_views;
use crate::imports::{entry_views, insert_entry, insert_entry_exec, key_at, keys_unique};
use crate::model::{DescView, RouteMethodDesc};
use crate::text::{join, join_strs, split_on, split_str, starts_with, starts_with_str, trim, trim_str, views};

verus! {

/// The arguments of a route attribute: the path, the HTTP method, and the other
/// `name = "value"` options.
pub struct RouteDef {
    pub path: String,
    pub method: String,
    pub options: Vec<(String, String)>,
}

impl RouteDef {
    /// No option name occurs twice.
    pub open spec fn wf(&self) -> bool {
        keys_unique(entry_views(self.options@))
    }

    /// A route at `path` with no method and no options yet.
    pub fn new(path: String) -> (r: Self)
        ensures
            r.wf(),
            r.path == path,
            r.method@ == Seq::<char>::empty(),
            r.options@.len() == 0,
    {
        let r = RouteDef { path, method: String::new(), options: Vec::new() };
        assert(entry_views(r.options@) =~= Seq::<(Seq<char>, Seq<char>)>::empty());
        r
    }

    /// Takes one `name = "value"` option: `method` sets the method, any other
    /// name sets that option, a later value replacing an earlier one.
    pub fn set_option(&mut self, name: String, value: String)
        requires
            old(self).wf(),
        ensures
            final(self).wf(),
            final(self).path == old(self).path,
            name@ == "method"@ ==> final(self).method == value && final(self).options
                == old(self).options,
            name@ != "method"@ ==> final(self).method == old(self).method && entry_views(
                final(self).options@,
            ) == insert_entry(entry_views(old(self).options@), name@, value@),
    {
        if name == String::from_str("method") {
            self.method = value;
        } else {
            insert_entry_exec(&mut self.options, name, value);
        }
    }

    /// Whether the route also registers a description for client generation:
    /// every route but those with the `non_api` option.
    pub fn is_api(&self) -> (r: bool)
        ensures
            r == !exists|i: int| key_at(entry_views(self.options@), "non_api"@, i),
    {
        let key = String::from_str("non_api");
        let mut k: usize = 0;
        while k < self.options.len()
            invariant
                k <= self.options@.len(),
                key@ == "non_api"@,
                forall|j: int| 0 <= j < k ==> self.options@[j].0@ != key@,
            decreases self.options@.len() - k,
        {
            if self.options[k].0 == key {
                assert(key_at(entry_views(self.options@), "non_api"@, k as int));
                return false;
            }
            k = k + 1;
        }
        assert forall|i: int| !key_at(entry_views(self.options@), "non_api"@, i) by {
            if 0 <= i < self.options@.len() {
                assert(entry_views(self.options@)[i] == self.options@[i]@);
            }
        }
        true
    }

    /// The description that a handler at this route registers: its arguments and
    /// its module's imports are each joined by `;`.
    pub fn describe(
        &self,
        mod_name: String,
        fn_name: String,
        fn_args: &Vec<String>,
        fn_return_type: String,
        use_statements: &Vec<String>,
    ) -> (r: RouteMethodDesc)
        ensures
            r@ == (DescView {
                mod_name: mod_name@,
                path: self.path@,
                http_method: self.method@,
                fn_name: fn_name@,
                fn_args: join(views(fn_args@), ";"@),
                fn_return_type: fn_return_type@,
                use_statements: join(views(use_statements@), ";"@),
            }),
    {
        RouteMethodDesc::new(
            mod_name,
            self.path.clone(),
            self.method.clone(),
            fn_name,
            join_strs(fn_args, ";"),
            fn_return_type,
            join_strs(use_statements, ";"),
        )
    }
}

/// The trimmed lines that are `use` statements, in order.
pub open spec fn use_lines_of(lines: Seq<Seq<char>>) -> Seq<Seq<char>>
    decreases lines.len(),
{
    if lines.len() == 0 {
        Seq::empty()
    } else {
        let prev = use_lines_of(lines.drop_last());
        let t = trim(lines.last());
        if starts_with(t, "use "@) {
            prev.push(t)
        } else {
            prev
        }
    }
}

/// The `use` statements found for one module.
#[derive(Debug, Clone)]
pub struct UseCollector {
    pub mod_name: String,
    pub uses: Vec<String>,
}

impl UseCollector {
    /// A collector for no module, with no statements.
    pub fn new() -> (r: UseCollector)
        ensures
            r.mod_name@ == Seq::<char>::empty(),
            r.uses@.len() == 0,
    {
        UseCollector { mod_name: String::new(), uses: Vec::new() }
    }

    /// A collector for the module `mod_name`, with no statements.
    pub fn for_module(mod_name: String) -> (r: UseCollector)
        ensures
            r.mod_name == mod_name,
            r.uses@.len() == 0,
    {
        UseCollector { mod_name, uses: Vec::new() }
    }

    /// Adds the lines of a module's source that are `use` statements, trimmed.
    pub fn collect_source_uses(&mut self, source: &str)
        ensures
            final(self).mod_name == old(self).mod_name,
            views(final(self).uses@) == views(old(self).uses@) + use_lines_of(
                split_on(source@, '\n'),
            ),
    {
        let lines = split_str(source, '\n');
        let ghost start = views(self.uses@);
        let mut k: usize = 0;
        assert(views(self.uses@) =~= start + use_lines_of(views(lines@).take(0)));
        while k < lines.len()
            invariant
                k <= lines@.len(),
                views(lines@) == split_on(source@, '\n'),
                self.mod_name == old(self).mod_name,
                views(self.uses@) == start + use_lines_of(views(lines@).take(k as int)),
            decreases lines@.len() - k,
        {
            assert(views(lines@).take(k as int + 1).drop_last() =~= views(lines@).take(k as int));
            assert(views(lines@).take(k as int + 1).last() == lines@[k as int]@);
            let t = trim_str(lines[k].as_str());
            if starts_with_str(t.as_str(), "use ") {
                let ghost before = self.uses@;
                self.uses.push(t);
                assert(views(self.uses@) =~= views(before).push(t@));
            }
            k = k + 1;
        }
        assert(views(lines@).take(k as int) =~= views(lines@));
    }
}

/// The route descriptions registered so far, in order of registration.
pub struct RouteRegistry {
    descs: Vec<RouteMethodDesc>,
}

impl View for RouteRegistry {
    type V = Seq<DescView>;

    closed spec fn view(&self) -> Seq<DescView> {
        desc_views(self.descs@)
    }
}

impl RouteRegistry {
    pub fn new() -> (r: RouteRegistry)
        ensures
            r@ == Seq::<DescView>::empty(),
    {
        let r = RouteRegistry { descs: Vec::new() };
        assert(r@ =~= Seq::<DescView>::empty());
        r
    }

    /// Adds a description after all earlier ones.
    pub fn register(&mut self, desc: RouteMethodDesc)
        ensures
            final(self)@ == old(self)@.push(desc@),
    {
        let ghost before = self.descs@;
        self.descs.push(desc);
        assert(desc_views(self.descs@) =~= desc_views(before).push(desc@));
    }

    /// Every description registered, in order of registration.
    pub fn all(&self) -> (r: &Vec<RouteMethodDesc>)
        ensures
            desc_views(r@) == self@,
    {
        &self.descs
    }
}

} // verus!
