//! Offline file-conversion planning: the format catalogue, conversion
//! capabilities, engine argument building, request validation and output naming.
pub mod text;
pub mod external;
pub mod models;
pub mod catalog;
pub mod formats;
pub mod numbers;
pub mod libreoffice;
pub mod errors;
pub mod paths;
pub mod requests;
pub mod engines;
pub mod inspection;
pub mod execution;
pub mod progress;
pub mod queue;
pub mod shell;
pub mod document;
pub mod desktop;
pub mod cli;
pub mod laws;
