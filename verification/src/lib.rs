//! Structure-preserving compression of books and articles: the verified core.
pub mod cli;
pub mod compress;
pub mod config;
pub mod config_cmd;
pub mod error;
pub mod export;
pub mod ingest;
pub mod llm;
pub mod mode;
pub mod path;
pub mod segment;
pub mod state;
pub mod text;
pub mod ui;
