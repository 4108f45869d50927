//! A proposed set of imports to ease usage of this crate.

pub use crate::context::Context as ValidationContext;
pub use crate::{
    IntoValidated, Invalidity, IsValid, Validate, Validated, ValidatedFrom, ValidatedResult,
    ValidationResult,
};
