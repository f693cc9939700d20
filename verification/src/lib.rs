//! Document-check support library: Base64 metadata codec, analysis history,
//! guideline selection, prompt construction and the decisions of the
//! folder-watch and analysis pipeline.

pub mod analysis;
pub mod base64;
pub mod claude_api;
pub mod code_review;
pub mod error;
pub mod events;
pub mod gemini_cli;
pub mod guidelines;
pub mod history;
pub mod pdf_embed;
pub mod pdf_processor;
pub mod policy;
pub mod settings;
pub mod text;
pub mod watcher;
