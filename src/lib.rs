pub mod json;
pub mod trace;
