//! A generic document-mapping layer: a uniform set of persistence
//! operations (insert, read, list, update, delete, count, aggregate,
//! index management) for strongly-typed record types against a
//! document-oriented backing store.
//!
//! The verified core is the update-document normalizer, the
//! aggregation-pipeline builder, the query construction, and the
//! mapping of every backing-store reply to a typed result or a typed
//! error. The asynchronous driver calls themselves live outside this
//! crate; they hand their replies to the functions here as plain
//! values.

pub mod connection;
pub mod document;
pub mod model;
pub mod models;
pub mod pipeline;
pub mod text;
mod time;
pub mod types;
pub mod update;

pub use document::Document;
pub use document::Value;
pub use model::Model;
pub use types::ListOptions;
pub use types::LookupStage;
pub use types::MongooseError;
pub use types::PipelineStage;
