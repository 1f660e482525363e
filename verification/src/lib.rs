//! First-party plugins for StriVo.
//!
//! - [`crunchr`]: transcription and analysis (Whisper CLI, Voxtral, Mistral, OpenRouter)
//! - [`archiver`]: recording organization and gallery rendering
pub mod archiver;
pub mod config;
pub mod crunchr;
pub mod dirs;
pub mod host;
pub mod ids;
pub mod json;
pub mod number;
pub mod picker;
pub mod picker_screen;
pub mod screen;
pub mod text;
