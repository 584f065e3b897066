pub mod auth;
pub mod text;
pub mod error;
pub mod process;
pub mod git;
pub mod git_ops;
pub mod merge;
pub mod push;
pub mod commandcode;
pub mod git_status;
pub mod provision;
pub mod terminal;
pub mod linear;
pub mod linear_issues;
pub mod image_cache;
pub mod image_refs;
pub mod server_args;
pub mod paths;
pub mod keychain;
pub mod repo_setup;
pub mod config;
pub mod registry;
pub mod json;
pub mod json_value;
pub mod events;
pub mod laws;
