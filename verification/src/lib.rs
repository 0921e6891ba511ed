//! Conversion of identifier-style text between snake_case, kebab-case,
//! camelCase and PascalCase, with the conversions stated as functions on
//! character sequences and proved against those statements.

pub mod casing;
pub mod divider;
pub mod ext;
pub mod laws;
pub mod unicode;

pub use crate::casing::apply_case_transform;
pub use crate::divider::apply_divider_transform;
pub use crate::ext::StringCasesExt;
