pub mod chars;
pub mod textedit;
pub mod models;
pub mod app;
pub mod filter;
pub mod tags;
pub mod cache;
pub mod navigation;
pub mod editing;
pub mod forms;
pub mod audit;
pub mod config;
pub mod event;
pub mod sync;
pub mod display;
pub mod keys;
