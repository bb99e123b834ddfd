//! The functions that expressions can call.

pub mod list_fns;
pub mod math_fns;
pub mod text_fns;
pub mod time_fns;
