//! A hierarchical validation engine: document nodes are checked field by
//! field, and every violation is collected into a named error tree that
//! mirrors the document's shape.

pub mod bom;
pub mod contact;
pub mod validation;

pub use validation::{
    SpecVersion, Validate, ValidationContext, ValidationError, ValidationErrors,
    ValidationErrorsKind, ValidationResult,
};
pub use bom::{validate_bom, Bom, Metadata, Tool, ToolKind};
