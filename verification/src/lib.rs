pub mod address;
pub mod cli;
pub mod config;
pub mod effort;
pub mod error;
pub mod forward;
pub mod headers;
pub mod icon;
pub mod json;
pub mod menu;
pub mod report;
pub mod seqs;
pub mod text;
pub mod upstream;
