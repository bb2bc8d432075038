//! The route description handed from the server side to the client generator,
//! the parsed form of one handler argument, and the generator's settings.
use vstd::prelude::*;

verus! {

/// One handler: where it is mounted and the text of its signature.
#[derive(Debug, Clone)]
pub struct RouteMethodDesc {
    pub mod_name: String,
    pub path: String,
    pub http_method: String,
    pub fn_name: String,
    pub fn_args: String,
    pub fn_return_type: String,
    pub use_statements: String,
}

/// The text of each field of a route description, in declaration order.
pub struct DescView {
    pub mod_name: Seq<char>,
    pub path: Seq<char>,
    pub http_method: Seq<char>,
    pub fn_name: Seq<char>,
    pub fn_args: Seq<char>,
    pub fn_return_type: Seq<char>,
    pub use_statements: Seq<char>,
}

impl View for RouteMethodDesc {
    type V = DescView;

    open spec fn view(&self) -> DescView {
        DescView {
            mod_name: self.mod_name@,
            path: self.path@,
            http_method: self.http_method@,
            fn_name: self.fn_name@,
            fn_args: self.fn_args@,
            fn_return_type: self.fn_return_type@,
            use_statements: self.use_statements@,
        }
    }
}

impl RouteMethodDesc {
    pub fn new(
        mod_name: String,
        path: String,
        http_method: String,
        fn_name: String,
        fn_args: String,
        fn_return_type: String,
        use_statements: String,
    ) -> (r: Self)
        ensures
            r.mod_name == mod_name,
            r.path == path,
            r.http_method == http_method,
            r.fn_name == fn_name,
            r.fn_args == fn_args,
            r.fn_return_type == fn_return_type,
            r.use_statements == use_statements,
    {
        RouteMethodDesc {
            mod_name,
            path,
            http_method,
            fn_name,
            fn_args,
            fn_return_type,
            use_statements,
        }
    }
}

/// How the value of a handler argument reaches the server.
#[derive(Debug, Clone, Copy, PartialEq, Eq, Structural)]
pub enum FnArgValueForm {
    Json,
    Path,
    QueryString,
}

/// One handler argument: its name, its type, and how its value is sent.
#[derive(Debug, Clone)]
pub struct FnArgInfo {
    pub name: String,
    pub arg_type: String,
    pub value_form: FnArgValueForm,
}

/// Name, type and value form of one argument.
pub type ArgView = (Seq<char>, Seq<char>, FnArgValueForm);

impl View for FnArgInfo {
    type V = ArgView;

    open spec fn view(&self) -> ArgView {
        (self.name@, self.arg_type@, self.value_form)
    }
}

/// The view of each argument.
pub open spec fn arg_views(v: Seq<FnArgInfo>) -> Seq<ArgView> {
    v.map_values(|a: FnArgInfo| a@)
}

/// Where client code goes, and the paths of the three client-side types it uses.
pub struct ApiClientCodeGenConf {
    pub output_dir: String,
    pub http_client_path: String,
    pub api_error_path: String,
    pub response_wrapper_path: String,
}

impl ApiClientCodeGenConf {
    pub fn new(
        output_dir: String,
        http_client_path: String,
        api_error_path: String,
        response_wrapper_path: String,
    ) -> (r: Self)
        ensures
            r.output_dir == output_dir,
            r.http_client_path == http_client_path,
            r.api_error_path == api_error_path,
            r.response_wrapper_path == response_wrapper_path,
    {
        ApiClientCodeGenConf { output_dir, http_client_path, api_error_path, response_wrapper_path }
    }
}

} // verus!
