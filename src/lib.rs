//! Conversion of parsed configuration trees into a JSON-like intermediate
//! tree, ready for JSON, YAML or TOML encoders.
pub mod converter;
pub mod error;
pub mod laws;
pub mod value;

pub use converter::Converter;
pub use error::Error;
pub use value::{IntermediateValue, Output, SourceValue};
