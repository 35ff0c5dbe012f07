//! Unicode-safe text cleaning and typographic normalization, with the
//! cleaning engine specified and proved in Verus.

pub mod cleaner;
pub mod engine;
pub mod lines;
pub mod options;
pub mod rewrite;
pub mod sets;
pub mod stats;
pub mod stream;
pub mod tables;
pub mod text;
pub mod util;

pub use cleaner::{clean, humanize, TextCleaner};
pub use options::{
    CleaningOptions, CleaningOptionsBuilder, EmojiPolicy, LineEndingStyle, NonAsciiPolicy,
    UnicodeNormalizationMode,
};
pub use sets::{is_emoji, is_extended_keyboard_char, is_hidden_char, is_keyboard_ascii};
pub use stats::{CleaningError, CleaningResult, CleaningStats};
pub use stream::{StreamCleaner, StreamSummary};
pub mod cli;
pub mod laws;
pub mod accounting;
pub mod locality;
pub mod option_laws;
