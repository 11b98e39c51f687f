//! Ebook normalization library: reads EPUB containers into chapters,
//! classifies chapters as front matter, body or back matter, cleans chapter
//! markup for narration, fills missing metadata from Open Library answers,
//! and assembles clean EPUB output.

pub mod cli;
pub mod models;
pub mod package;
pub mod paths;
pub mod pipeline;
pub mod server;
pub mod text;
pub mod title;
pub mod xml;
