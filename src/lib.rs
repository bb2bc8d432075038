//! Client code generation for HTTP route handlers: route descriptions,
//! argument-list parsing, import pruning and client-call synthesis.
pub mod codegen;
pub mod generate;
pub mod imports;
pub mod laws;
pub mod model;
pub mod route;
pub mod signature;
pub mod text;

pub use model::{ApiClientCodeGenConf, FnArgInfo, FnArgValueForm, RouteMethodDesc};
