//! The conversion pipeline: reading, classifying, enriching, cleaning for
//! narration and writing.

pub mod classify;
pub mod enrich;
pub mod epub_reader;
pub mod reader;
pub mod tts;
pub mod writer;
