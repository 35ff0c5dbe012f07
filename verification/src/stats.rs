//! Cleaning statistics, results and errors.

use vstd::prelude::*;
use std::borrow::Cow;
use vstd::string::*;
use crate::options::UnicodeNormalizationMode;

verus! {

/// Detailed statistics about cleaning operations.
#[derive(Clone, Copy, Debug, PartialEq, Eq, Structural)]
pub struct CleaningStats {
    pub hidden_chars_removed: u64,
    pub trailing_whitespace_removed: u64,
    pub spaces_normalized: u64,
    pub dashes_normalized: u64,
    pub quotes_normalized: u64,
    pub other_normalized: u64,
    pub control_chars_removed: u64,
    pub line_endings_normalized: u64,
    pub non_keyboard_removed: u64,
    pub non_keyboard_transliterated: u64,
    pub emojis_dropped: u64,
}

/// All counters zero.
pub open spec fn zero_stats() -> CleaningStats {
    CleaningStats {
        hidden_chars_removed: 0,
        trailing_whitespace_removed: 0,
        spaces_normalized: 0,
        dashes_normalized: 0,
        quotes_normalized: 0,
        other_normalized: 0,
        control_chars_removed: 0,
        line_endings_normalized: 0,
        non_keyboard_removed: 0,
        non_keyboard_transliterated: 0,
        emojis_dropped: 0,
    }
}

impl Default for CleaningStats {
    fn default() -> (r: Self)
        ensures
            r == zero_stats(),
    {
        CleaningStats {
            hidden_chars_removed: 0,
            trailing_whitespace_removed: 0,
            spaces_normalized: 0,
            dashes_normalized: 0,
            quotes_normalized: 0,
            other_normalized: 0,
            control_chars_removed: 0,
            line_endings_normalized: 0,
            non_keyboard_removed: 0,
            non_keyboard_transliterated: 0,
            emojis_dropped: 0,
        }
    }
}

/// The counter that a change is billed to.
#[derive(Clone, Copy, Debug, PartialEq, Eq, Structural)]
pub enum StatField {
    HiddenCharsRemoved,
    TrailingWhitespaceRemoved,
    SpacesNormalized,
    DashesNormalized,
    QuotesNormalized,
    OtherNormalized,
    ControlCharsRemoved,
    LineEndingsNormalized,
    NonKeyboardRemoved,
    NonKeyboardTransliterated,
    EmojisDropped,
}

/// `s` with `amount` added, saturating, to the counter `f`.
pub open spec fn bump(s: CleaningStats, f: StatField, amount: u64) -> CleaningStats {
    match f {
        StatField::HiddenCharsRemoved => CleaningStats {
            hidden_chars_removed: s.hidden_chars_removed.saturating_add(amount),
            ..s
        },
        StatField::TrailingWhitespaceRemoved => CleaningStats {
            trailing_whitespace_removed: s.trailing_whitespace_removed.saturating_add(amount),
            ..s
        },
        StatField::SpacesNormalized => CleaningStats {
            spaces_normalized: s.spaces_normalized.saturating_add(amount),
            ..s
        },
        StatField::DashesNormalized => CleaningStats {
            dashes_normalized: s.dashes_normalized.saturating_add(amount),
            ..s
        },
        StatField::QuotesNormalized => CleaningStats {
            quotes_normalized: s.quotes_normalized.saturating_add(amount),
            ..s
        },
        StatField::OtherNormalized => CleaningStats {
            other_normalized: s.other_normalized.saturating_add(amount),
            ..s
        },
        StatField::ControlCharsRemoved => CleaningStats {
            control_chars_removed: s.control_chars_removed.saturating_add(amount),
            ..s
        },
        StatField::LineEndingsNormalized => CleaningStats {
            line_endings_normalized: s.line_endings_normalized.saturating_add(amount),
            ..s
        },
        StatField::NonKeyboardRemoved => CleaningStats {
            non_keyboard_removed: s.non_keyboard_removed.saturating_add(amount),
            ..s
        },
        StatField::NonKeyboardTransliterated => CleaningStats {
            non_keyboard_transliterated: s.non_keyboard_transliterated.saturating_add(amount),
            ..s
        },
        StatField::EmojisDropped => CleaningStats {
            emojis_dropped: s.emojis_dropped.saturating_add(amount),
            ..s
        },
    }
}

/// Field-wise saturating sum of two stats snapshots.
pub open spec fn merged(a: CleaningStats, b: CleaningStats) -> CleaningStats {
    CleaningStats {
        hidden_chars_removed: a.hidden_chars_removed.saturating_add(b.hidden_chars_removed),
        trailing_whitespace_removed: a.trailing_whitespace_removed.saturating_add(
            b.trailing_whitespace_removed,
        ),
        spaces_normalized: a.spaces_normalized.saturating_add(b.spaces_normalized),
        dashes_normalized: a.dashes_normalized.saturating_add(b.dashes_normalized),
        quotes_normalized: a.quotes_normalized.saturating_add(b.quotes_normalized),
        other_normalized: a.other_normalized.saturating_add(b.other_normalized),
        control_chars_removed: a.control_chars_removed.saturating_add(b.control_chars_removed),
        line_endings_normalized: a.line_endings_normalized.saturating_add(
            b.line_endings_normalized,
        ),
        non_keyboard_removed: a.non_keyboard_removed.saturating_add(b.non_keyboard_removed),
        non_keyboard_transliterated: a.non_keyboard_transliterated.saturating_add(
            b.non_keyboard_transliterated,
        ),
        emojis_dropped: a.emojis_dropped.saturating_add(b.emojis_dropped),
    }
}

impl CleaningStats {
    /// Merge another stats snapshot into this one.
    ///
    /// # Arguments
    /// - `other`: Additional counters to accumulate into `self`.
    pub fn accumulate(&mut self, other: &CleaningStats)
        ensures
            *final(self) == merged(*old(self), *other),
    {
        self.hidden_chars_removed = self.hidden_chars_removed.saturating_add(
            other.hidden_chars_removed,
        );
        self.trailing_whitespace_removed = self.trailing_whitespace_removed.saturating_add(
            other.trailing_whitespace_removed,
        );
        self.spaces_normalized = self.spaces_normalized.saturating_add(other.spaces_normalized);
        self.dashes_normalized = self.dashes_normalized.saturating_add(other.dashes_normalized);
        self.quotes_normalized = self.quotes_normalized.saturating_add(other.quotes_normalized);
        self.other_normalized = self.other_normalized.saturating_add(other.other_normalized);
        self.control_chars_removed = self.control_chars_removed.saturating_add(
            other.control_chars_removed,
        );
        self.line_endings_normalized = self.line_endings_normalized.saturating_add(
            other.line_endings_normalized,
        );
        self.non_keyboard_removed = self.non_keyboard_removed.saturating_add(
            other.non_keyboard_removed,
        );
        self.non_keyboard_transliterated = self.non_keyboard_transliterated.saturating_add(
            other.non_keyboard_transliterated,
        );
        self.emojis_dropped = self.emojis_dropped.saturating_add(other.emojis_dropped);
    }
}

/// Bill `amount` changes to the total and to the counter `f`.
pub fn record(changes: &mut u64, stats: &mut CleaningStats, f: StatField, amount: u64)
    ensures
        *final(changes) == old(changes).saturating_add(amount),
        *final(stats) == bump(*old(stats), f, amount),
{
    *changes = changes.saturating_add(amount);
    match f {
        StatField::HiddenCharsRemoved => {
            stats.hidden_chars_removed = stats.hidden_chars_removed.saturating_add(amount);
        },
        StatField::TrailingWhitespaceRemoved => {
            stats.trailing_whitespace_removed = stats.trailing_whitespace_removed.saturating_add(
                amount,
            );
        },
        StatField::SpacesNormalized => {
            stats.spaces_normalized = stats.spaces_normalized.saturating_add(amount);
        },
        StatField::DashesNormalized => {
            stats.dashes_normalized = stats.dashes_normalized.saturating_add(amount);
        },
        StatField::QuotesNormalized => {
            stats.quotes_normalized = stats.quotes_normalized.saturating_add(amount);
        },
        StatField::OtherNormalized => {
            stats.other_normalized = stats.other_normalized.saturating_add(amount);
        },
        StatField::ControlCharsRemoved => {
            stats.control_chars_removed = stats.control_chars_removed.saturating_add(amount);
        },
        StatField::LineEndingsNormalized => {
            stats.line_endings_normalized = stats.line_endings_normalized.saturating_add(amount);
        },
        StatField::NonKeyboardRemoved => {
            stats.non_keyboard_removed = stats.non_keyboard_removed.saturating_add(amount);
        },
        StatField::NonKeyboardTransliterated => {
            stats.non_keyboard_transliterated = stats.non_keyboard_transliterated.saturating_add(
                amount,
            );
        },
        StatField::EmojisDropped => {
            stats.emojis_dropped = stats.emojis_dropped.saturating_add(amount);
        },
    }
}

/// Result of a text cleaning operation.
#[derive(Debug)]
pub struct CleaningResult<'a> {
    /// Borrowed from the input when the input is handed back as it is.
    pub text: Cow<'a, str>,
    pub changes_made: u64,
    pub stats: CleaningStats,
}

/// Errors produced by fallible cleaning APIs.
#[derive(Clone, Copy, Debug, PartialEq, Eq, Structural)]
pub enum CleaningError {
    /// A Unicode normalization mode was requested but is not available.
    NormalizationUnavailable { requested: UnicodeNormalizationMode },
}

/// How error messages name a normalization mode.
pub open spec fn mode_name(m: UnicodeNormalizationMode) -> Seq<char> {
    match m {
        UnicodeNormalizationMode::Disabled => "None"@,
        UnicodeNormalizationMode::NFD => "NFD"@,
        UnicodeNormalizationMode::NFC => "NFC"@,
        UnicodeNormalizationMode::NFKD => "NFKD"@,
        UnicodeNormalizationMode::NFKC => "NFKC"@,
    }
}

/// The human-readable message of an error.
pub open spec fn error_message(e: CleaningError) -> Seq<char> {
    match e {
        CleaningError::NormalizationUnavailable { requested } => "Unicode normalization "@
            + mode_name(requested) + " requested but the 'unorm' feature is disabled"@,
    }
}

fn mode_label(m: UnicodeNormalizationMode) -> (r: &'static str)
    ensures
        r@ == mode_name(m),
{
    match m {
        UnicodeNormalizationMode::Disabled => "None",
        UnicodeNormalizationMode::NFD => "NFD",
        UnicodeNormalizationMode::NFC => "NFC",
        UnicodeNormalizationMode::NFKD => "NFKD",
        UnicodeNormalizationMode::NFKC => "NFKC",
    }
}

impl CleaningError {
    /// The human-readable message of the error.
    pub fn message(&self) -> (r: String)
        ensures
            r@ == error_message(*self),
    {
        match self {
            CleaningError::NormalizationUnavailable { requested } => {
                let mut text = String::from_str("Unicode normalization ");
                text.append(mode_label(*requested));
                text.append(" requested but the 'unorm' feature is disabled");
                text
            },
        }
    }
}

} // verus!
