pub mod library;
pub mod models;
pub mod parser;
pub mod quiz;
pub mod shuffle;
pub mod stats;
pub mod study;
pub mod text;
pub mod theme;
