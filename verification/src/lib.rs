//! Core of a service that builds and runs submitted source fragments: the
//! manifest grammar, manifest merging, template expansion, and the decisions
//! of the build-and-run pipeline, each stated as a contract and proved.

pub mod api_handlers;
pub mod cache;
pub mod call;
pub mod json;
pub mod manifest;
pub mod parse;
pub mod script;
pub mod stream;
pub mod text;
pub mod worker;

pub use call::Call;
