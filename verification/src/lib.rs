//! Tools as self-describing, remotely invokable functions.
//!
//! A tool is an ordinary function packaged together with a JSON Schema that
//! describes its callable interface.  Packaging inspects a structural
//! description of the function's signature, infers a schema fragment for each
//! parameter, and produces an immutable [`tool::ToolDefinition`].  Definitions
//! are collected once into a read-only [`registry::Registry`], and calls are
//! then routed by name through [`dispatch::dispatch_tool`], which decodes the
//! JSON arguments against the declared parameter shapes before the underlying
//! function runs and reports every failure as a tagged error.

pub mod descriptor;
pub mod json;
pub mod dispatch;
pub mod registry;
pub mod schema;
pub mod tool;

pub use descriptor::GenericArg;
pub use descriptor::TypeDescriptor;
pub use descriptor::TypePath;
pub use dispatch::DispatchError;
pub use dispatch::InvokeOutcome;
pub use dispatch::dispatch_tool;
pub use json::JsonValue;
pub use registry::Registry;
pub use tool::ExecKind;
pub use tool::FnInput;
pub use tool::ParamPattern;
pub use tool::ToolDefinition;
pub use tool::package_tool;
