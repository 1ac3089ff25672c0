//! Generates strongly-typed Rust client bindings from a device's
//! self-described remote-procedure API: identifier normalization, resolution
//! of argument types through the state-variable table, and synthesis of one
//! request function and one response struct per remote action.

pub mod api_desc;
pub mod api_desc_dir;
pub mod error;
pub mod normalize;
pub mod output;
pub mod text;
