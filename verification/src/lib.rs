//! Turns a JSON-Schema-like tree (as found in a Kubernetes custom resource
//! definition) into a flat, ordered list of record definitions, each with
//! typed fields, ready to be rendered as source code by a caller.

pub mod analyze;
pub mod laws;
pub mod output;
pub mod resolve;
pub mod schema;
pub mod strings;

pub use output::AnalyzeError;
pub use output::DefaultAnnot;
pub use output::OutputMember;
pub use output::OutputStruct;
pub use output::Warning;
pub use schema::AdditionalProperties;
pub use schema::Items;
pub use schema::SchemaNode;
pub use strings::uppercase_first_letter;
