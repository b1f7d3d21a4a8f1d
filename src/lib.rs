//! The dynamic value model of a structured shell: one polymorphic value type,
//! its type descriptor, and the conversions, comparisons and stream draining
//! that the rest of the shell relies on.

pub mod cast;
pub mod commands;
pub mod compare;
pub mod display;
pub mod duration;
pub mod format;
pub mod glob;
pub mod hash;
pub mod number;
pub mod path;
pub mod stream;
pub mod text;
pub mod value;
pub mod value_type;
