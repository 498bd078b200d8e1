//! Co-op map and patch deployment for FAForever: the decision logic of the
//! deployer service, its in-memory port doubles, and the laws that tie them
//! together.

pub mod text;
pub mod errors;
pub mod models;
pub mod paths;
pub mod keyed;
pub mod github;
pub mod table;
pub mod fs;
pub mod archive;
pub mod db;
pub mod auth;
pub mod git;
pub mod ports;
pub mod campaign;
pub mod patch;
pub mod map;
pub mod map_laws;
pub mod store_laws;
pub mod deploy_laws;
