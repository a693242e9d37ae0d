pub mod error;
pub mod ids;
pub mod laws;
pub mod models;
pub mod store;
pub mod text;
pub mod restore;
pub mod rosters;
