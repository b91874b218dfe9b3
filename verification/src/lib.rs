pub mod commands;
pub mod config;
pub mod display;
pub mod error;
pub mod models;
pub mod portfolio;
pub mod simple;
pub mod storage;
pub mod summary;
pub mod text;
