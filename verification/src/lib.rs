pub mod strings;
pub mod text;
pub mod errors;
pub mod upload;
pub mod auth;
pub mod ranking;
pub mod quiz_submit;
pub mod quiz;
pub mod profile;
pub mod prompts;
pub mod nexus;
pub mod map;
pub mod db;
pub mod analysis;
