//! Screenshot editing: documents, annotation drawing, and the decisions of a
//! region-capture tool.

pub mod app;
pub mod capture;
pub mod clipboard;
pub mod config;
pub mod desktop;
pub mod failure;
pub mod geometry;
pub mod hotkey;
pub mod imageops;
pub mod llm;
pub mod ocr;
pub mod picture;
pub mod platform;
pub mod raster;
pub mod text;
pub mod tray;
pub mod ui;
