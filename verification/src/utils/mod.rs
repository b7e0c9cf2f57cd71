pub mod text;
pub mod platform;
