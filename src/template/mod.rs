//! Template loading: the legacy dialect, structured documents and metadata.
pub mod loader;
pub mod doc;
pub mod modern;
pub mod metadata;
pub mod convert;
pub mod resolver;
