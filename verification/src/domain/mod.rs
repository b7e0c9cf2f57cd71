pub mod models;
pub mod traits;
