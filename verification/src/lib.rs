//! Verified core of `cmish`, an interactive shell for CMIS repositories.
pub mod config;
pub mod def;
pub mod error;
pub mod files;
pub mod http;
pub mod ops;
pub mod paging;
pub mod path;
pub mod props;
pub mod query;
pub mod repl;
pub mod repo;
pub mod request;
pub mod table;
pub mod text;
pub mod util;
