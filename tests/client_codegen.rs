use axum_route_helper::codegen::{
    generate_fn_code, generate_http_client_args, generate_http_client_call, placeholders,
    CodegenError,
};
use axum_route_helper::generate::generate_client_sources;
use axum_route_helper::signature::{parts_fn_args_names_and_types, return_payload, ResponseShape};
use axum_route_helper::{ApiClientCodeGenConf, FnArgInfo, FnArgValueForm, RouteMethodDesc};

fn desc(
    mod_name: &str,
    path: &str,
    method: &str,
    fn_name: &str,
    args: &str,
    ret: &str,
    uses: &str,
) -> RouteMethodDesc {
    RouteMethodDesc::new(
        mod_name.to_string(),
        path.to_string(),
        method.to_string(),
        fn_name.to_string(),
        args.to_string(),
        ret.to_string(),
        uses.to_string(),
    )
}

fn conf() -> ApiClientCodeGenConf {
    ApiClientCodeGenConf::new(
        "out".to_string(),
        "client::HttpClient".to_string(),
        "client::ApiError".to_string(),
        "client::ResponseWrapper".to_string(),
    )
}

fn arg(name: &str, ty: &str, form: FnArgValueForm) -> FnArgInfo {
    FnArgInfo { name: name.to_string(), arg_type: ty.to_string(), value_form: form }
}

#[test]
fn save_product_scenario() {
    let d = desc(
        "product",
        "/api/product/save",
        "post",
        "save_product",
        "Json(product):Json<Product>",
        "Json<ApiResponse<Product>>",
        "shared::request::response::ApiResponse;shared::entity::Product;axum::Json",
    );
    let code = generate_fn_code(&d).unwrap();
    assert_eq!(
        code,
        "pub async fn save_product(product: Product) -> Result<Product, ApiError> {\n        let result = HttpClient::post(\"/api/product/save\", &Some(product), vec![], ResponseWrapper::ApiResponse).await?;\n        Ok(result)\n    }"
    );
}

#[test]
fn get_product_path_scenario() {
    let d = desc(
        "product",
        "/api/product/{id}/{action}",
        "get",
        "get_product",
        "Path((id,action)):Path<(String,String)>",
        "Json<ApiResponse<Product>>",
        "",
    );
    let code = generate_fn_code(&d).unwrap();
    assert_eq!(
        code,
        "pub async fn get_product(id: String, action: String) -> Result<Product, ApiError> {\n        let result = HttpClient::get(&format!(\"/api/product/{}/{}\",id, action), vec![], ResponseWrapper::ApiResponse).await?;\n        Ok(result)\n    }"
    );
}

#[test]
fn empty_arguments_give_no_parameters() {
    assert!(parts_fn_args_names_and_types(String::new()).is_empty());
    let d = desc("m", "/api/ping", "get", "ping", "", "String", "");
    assert_eq!(
        generate_fn_code(&d).unwrap(),
        "pub async fn ping() -> Result<String, ApiError> {\n        let result = HttpClient::get(\"/api/ping\", vec![], ResponseWrapper::Nothing).await?;\n        Ok(result)\n    }"
    );
    let call = generate_http_client_call(
        "post".to_string(),
        "/api/reset".to_string(),
        vec![],
        "String".to_string(),
    );
    assert_eq!(call, "post(\"/api/reset\", &Option::<i8>::None, vec![], ResponseWrapper::Nothing)");
}

#[test]
fn body_entry_parses_to_one_binding() {
    let args = parts_fn_args_names_and_types("Json(user):Json<User>".to_string());
    assert_eq!(args.len(), 1);
    assert_eq!(args[0].name, "user");
    assert_eq!(args[0].arg_type, "User");
    assert_eq!(args[0].value_form, FnArgValueForm::Json);
}

#[test]
fn path_pair_parses_in_order_and_fills_slots() {
    let args = parts_fn_args_names_and_types("Path((a,b)):Path<(A,B)>".to_string());
    assert_eq!(args.len(), 2);
    assert_eq!((args[0].name.as_str(), args[0].arg_type.as_str()), ("a", "A"));
    assert_eq!((args[1].name.as_str(), args[1].arg_type.as_str()), ("b", "B"));
    assert!(args.iter().all(|a| a.value_form == FnArgValueForm::Path));
    let call = generate_http_client_call(
        "get".to_string(),
        "/x/{a}/y/{b}".to_string(),
        args,
        "Item".to_string(),
    );
    assert_eq!(call, "get(&format!(\"/x/{}/y/{}\",a, b), vec![], ResponseWrapper::Nothing)");
}

#[test]
fn single_path_argument() {
    let args = parts_fn_args_names_and_types("Path(id):Path<u64>".to_string());
    assert_eq!(args.len(), 1);
    assert_eq!(args[0].name, "id");
    assert_eq!(args[0].arg_type, "u64");
    assert_eq!(args[0].value_form, FnArgValueForm::Path);
}

#[test]
fn plain_argument_is_a_query_parameter() {
    let args = parts_fn_args_names_and_types("page:u32".to_string());
    assert_eq!(args.len(), 1);
    assert_eq!(args[0].name, "page");
    assert_eq!(args[0].arg_type, "u32");
    assert_eq!(args[0].value_form, FnArgValueForm::QueryString);
}

#[test]
fn several_entries_and_skipped_ones() {
    let args = parts_fn_args_names_and_types(
        "Path(id):Path<u64>;nocolon;Json(a,b):Json<A>;q:String".to_string(),
    );
    assert_eq!(args.len(), 2);
    assert_eq!(args[0].name, "id");
    assert_eq!(args[1].name, "q");
    assert_eq!(args[1].value_form, FnArgValueForm::QueryString);
}

#[test]
fn return_type_wrappers_unwrap() {
    let (p, s) = return_payload("ApiResponse<Product>");
    assert_eq!((p.as_str(), s), ("Product", ResponseShape::SingleItem));
    let (p, s) = return_payload("PagingResponse<Product>");
    assert_eq!((p.as_str(), s), ("Product", ResponseShape::Page));
    let (p, s) = return_payload("Json<ApiResponse<Vec<Product>>>");
    assert_eq!((p.as_str(), s), ("Vec<Product>", ResponseShape::SingleItem));
    let (p, s) = return_payload("Json<Product>");
    assert_eq!((p.as_str(), s), ("Product", ResponseShape::Plain));
    let (p, s) = return_payload("Vec<Product>");
    assert_eq!((p.as_str(), s), ("Vec<Product>", ResponseShape::Plain));
}

#[test]
fn paged_response_uses_paging_operation() {
    let d = desc(
        "product",
        "/api/products",
        "GET",
        "list_products",
        "page:u32",
        "Json<PagingResponse<Product>>",
        "",
    );
    assert_eq!(
        generate_fn_code(&d).unwrap(),
        "pub async fn list_products(page: u32) -> Result<Product, ApiError> {\n        let result = HttpClient::get_paging(\"/api/products\", vec![(\"page\",page)]).await?;\n        Ok(result)\n    }"
    );
}

#[test]
fn query_parameters_are_pairs_in_order() {
    let call = generate_http_client_call(
        "delete".to_string(),
        "/api/items".to_string(),
        vec![
            arg("a", "u32", FnArgValueForm::QueryString),
            arg("b", "String", FnArgValueForm::QueryString),
            arg("body", "Item", FnArgValueForm::Json),
        ],
        "ApiResponse<bool>".to_string(),
    );
    assert_eq!(
        call,
        "delete(\"/api/items\", vec![(\"a\",a), (\"b\",b)], ResponseWrapper::ApiResponse)"
    );
}

#[test]
fn post_sends_only_the_first_body() {
    let call = generate_http_client_call(
        "Post".to_string(),
        "/p".to_string(),
        vec![arg("x", "X", FnArgValueForm::Json), arg("y", "Y", FnArgValueForm::Json)],
        "X".to_string(),
    );
    assert_eq!(call, "post(\"/p\", &Some(x), vec![], ResponseWrapper::Nothing)");
}

#[test]
fn path_placeholder_mismatch_is_an_error() {
    let d = desc("m", "/api/{id}", "get", "f", "q:String", "X", "");
    assert_eq!(generate_fn_code(&d), Err(CodegenError::PathPlaceholderMismatch));
    let d = desc("m", "/api/{b}/{a}", "get", "f", "Path((a,b)):Path<(A,B)>", "X", "");
    assert_eq!(generate_fn_code(&d), Err(CodegenError::PathPlaceholderMismatch));
}

#[test]
fn placeholders_in_order() {
    assert_eq!(placeholders("/a/{x}/b/{y}"), vec!["x".to_string(), "y".to_string()]);
    assert!(placeholders("/plain").is_empty());
}

#[test]
fn client_args_from_typed_list() {
    assert_eq!(generate_http_client_args("a: u32, b:String, , bad"), "(\"a\",a),(\"b\",b)");
    assert_eq!(generate_http_client_args(""), "");
}

#[test]
fn module_sources_group_and_repeat() {
    let descs = vec![
        desc(
            "product",
            "/api/product/save",
            "post",
            "save_product",
            "Json(product):Json<Product>",
            "Json<ApiResponse<Product>>",
            "shared::entity::Product;axum::Json",
        ),
        desc("user", "/api/user/{id}", "get", "get_user", "q:String", "User", "shared::User"),
        desc(
            "product",
            "/api/product/all",
            "get",
            "all_products",
            "",
            "Json<Vec<Product>>",
            "shared::entity::Product;shared::Extra",
        ),
    ];
    let first = generate_client_sources(&conf(), &descs);
    let second = generate_client_sources(&conf(), &descs);
    assert_eq!(first.modules.len(), 2);
    assert_eq!(first.modules[0].mod_name, "product");
    assert_eq!(first.modules[1].mod_name, "user");
    for (a, b) in first.modules.iter().zip(second.modules.iter()) {
        assert_eq!(a.mod_name, b.mod_name);
        assert_eq!(a.source, b.source);
    }
    let product = &first.modules[0].source;
    assert!(product.starts_with(
        "use client::HttpClient;\nuse client::ApiError;\nuse client::ResponseWrapper;\nuse shared::entity::Product;\nuse shared::Extra;\n\n\npub async fn save_product("
    ));
    assert!(product.contains("pub async fn all_products() -> Result<Vec<Product>, ApiError>"));
    assert!(product.ends_with("}\n\n"));
    assert_eq!(
        first.modules[1].source,
        "use client::HttpClient;\nuse client::ApiError;\nuse client::ResponseWrapper;\nuse shared::User;\n\n\n"
    );
    assert_eq!(first.failures.len(), 1);
    assert_eq!(first.failures[0].fn_name, "get_user");
    assert_eq!(first.failures[0].error, CodegenError::PathPlaceholderMismatch);
}

#[test]
fn no_routes_no_modules() {
    let r = generate_client_sources(&conf(), &vec![]);
    assert!(r.modules.is_empty());
    assert!(r.failures.is_empty());
}
