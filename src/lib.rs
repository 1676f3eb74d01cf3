//! A registry that maps stable type tags to constructors, together with the
//! rules that derive a canonical tag for a type, generic types included.

pub mod tag;
pub mod expand;
pub mod registry;
