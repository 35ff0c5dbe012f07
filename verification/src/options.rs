//! Cleaning options, presets and the options builder.

use vstd::prelude::*;

verus! {

/// Unicode normalization modes.
#[derive(Clone, Copy, Debug, PartialEq, Eq, Structural)]
pub enum UnicodeNormalizationMode {
    /// No normalization.
    Disabled,
    NFD,
    NFC,
    NFKD,
    NFKC,
}

/// Line ending styles.
#[derive(Clone, Copy, Debug, PartialEq, Eq, Structural)]
pub enum LineEndingStyle {
    /// `\n`
    Lf,
    /// `\r\n`
    Crlf,
    /// `\r`
    Cr,
}

/// Policy for emoji handling when `keyboard_only` is enabled.
#[derive(Clone, Copy, Debug, PartialEq, Eq, Structural)]
pub enum EmojiPolicy {
    Keep,
    Drop,
}

/// Policy for handling non-ASCII graphemes in `keyboard_only` mode.
#[derive(Clone, Copy, Debug, PartialEq, Eq, Structural)]
pub enum NonAsciiPolicy {
    /// Remove non-ASCII graphemes when they are not explicitly normalized elsewhere.
    Drop,
    /// Keep only compatibility-decomposed ASCII output.
    Fold,
    /// Fold first, then apply transliteration fallbacks before dropping.
    Transliterate,
}

/// Configuration for cleaning.
#[derive(Clone, Copy, Debug, PartialEq, Eq, Structural)]
pub struct CleaningOptions {
    pub remove_hidden: bool,
    pub remove_trailing_whitespace: bool,
    pub normalize_spaces: bool,
    /// Map dashes (em/en/minus) to ASCII hyphen.
    pub normalize_dashes: bool,
    pub normalize_quotes: bool,
    /// Ellipsis (`…` -> `...`), fraction slash, etc.
    pub normalize_other: bool,
    pub keyboard_only: bool,
    /// Curated non-ASCII allowlist in keyboard mode.
    pub extended_keyboard: bool,
    /// Effective only if `keyboard_only` is set.
    pub emoji_policy: EmojiPolicy,
    /// Effective only if `keyboard_only` is set.
    pub non_ascii_policy: NonAsciiPolicy,
    /// Keep ZWJ/ZWNJ when `remove_hidden` is enabled.
    pub preserve_joiners: bool,
    /// Remove Cc excluding `\n`, `\r`, `\t`.
    pub remove_control_chars: bool,
    pub collapse_whitespace: bool,
    pub normalize_line_endings: Option<LineEndingStyle>,
    pub unicode_normalization: UnicodeNormalizationMode,
    /// Bidi-control stripping; it takes effect only with the optional
    /// `security` hardening, which this build does not include.
    pub strip_bidi_controls: bool,
}

/// The default options: keyboard-only output, emoji dropped, non-ASCII
/// transliterated, typographic normalization on.
pub open spec fn default_options() -> CleaningOptions {
    CleaningOptions {
        remove_hidden: true,
        remove_trailing_whitespace: true,
        normalize_spaces: true,
        normalize_dashes: true,
        normalize_quotes: true,
        normalize_other: true,
        keyboard_only: true,
        extended_keyboard: false,
        emoji_policy: EmojiPolicy::Drop,
        non_ascii_policy: NonAsciiPolicy::Transliterate,
        preserve_joiners: false,
        remove_control_chars: true,
        collapse_whitespace: false,
        normalize_line_endings: None,
        unicode_normalization: UnicodeNormalizationMode::Disabled,
        strip_bidi_controls: false,
    }
}

/// The minimal preset: only hidden characters are removed.
pub open spec fn minimal_options() -> CleaningOptions {
    CleaningOptions {
        remove_trailing_whitespace: false,
        normalize_spaces: false,
        normalize_dashes: false,
        normalize_quotes: false,
        normalize_other: false,
        keyboard_only: false,
        remove_control_chars: false,
        ..default_options()
    }
}

/// The balanced preset for day-to-day text.
pub open spec fn balanced_options() -> CleaningOptions {
    CleaningOptions {
        keyboard_only: false,
        unicode_normalization: UnicodeNormalizationMode::NFC,
        ..default_options()
    }
}

/// The humanize preset for AI/LLM-ish text.
pub open spec fn humanize_options() -> CleaningOptions {
    CleaningOptions {
        keyboard_only: false,
        unicode_normalization: UnicodeNormalizationMode::NFKC,
        collapse_whitespace: true,
        ..default_options()
    }
}

/// The aggressive preset: maximum cleanup.
pub open spec fn aggressive_options() -> CleaningOptions {
    CleaningOptions {
        collapse_whitespace: true,
        normalize_line_endings: Some(LineEndingStyle::Lf),
        unicode_normalization: UnicodeNormalizationMode::NFKC,
        strip_bidi_controls: true,
        ..default_options()
    }
}

/// The code-safe preset for docs and source-like content.
pub open spec fn code_safe_options() -> CleaningOptions {
    CleaningOptions {
        normalize_dashes: false,
        normalize_quotes: false,
        normalize_other: false,
        keyboard_only: false,
        emoji_policy: EmojiPolicy::Keep,
        preserve_joiners: true,
        ..default_options()
    }
}

impl Default for CleaningOptions {
    fn default() -> (r: Self)
        ensures
            r == default_options(),
    {
        CleaningOptions {
            remove_hidden: true,
            remove_trailing_whitespace: true,
            normalize_spaces: true,
            normalize_dashes: true,
            normalize_quotes: true,
            normalize_other: true,
            keyboard_only: true,
            extended_keyboard: false,
            emoji_policy: EmojiPolicy::Drop,
            non_ascii_policy: NonAsciiPolicy::Transliterate,
            preserve_joiners: false,
            remove_control_chars: true,
            collapse_whitespace: false,
            normalize_line_endings: None,
            unicode_normalization: UnicodeNormalizationMode::Disabled,
            strip_bidi_controls: false,
        }
    }
}

/// Builder for [`CleaningOptions`].
#[derive(Clone, Copy, Debug)]
pub struct CleaningOptionsBuilder {
    options: CleaningOptions,
}

impl View for CleaningOptionsBuilder {
    type V = CleaningOptions;

    closed spec fn view(&self) -> CleaningOptions {
        self.options
    }
}

impl CleaningOptions {
    /// Start a new [`CleaningOptionsBuilder`] with default values.
    pub fn builder() -> (r: CleaningOptionsBuilder)
        ensures
            r@ == default_options(),
    {
        CleaningOptionsBuilder { options: CleaningOptions::default() }
    }

    /// Minimal preset: only removes hidden/invisible chars.
    pub fn minimal() -> (r: Self)
        ensures
            r == minimal_options(),
    {
        CleaningOptions {
            remove_trailing_whitespace: false,
            normalize_spaces: false,
            normalize_dashes: false,
            normalize_quotes: false,
            normalize_other: false,
            keyboard_only: false,
            remove_control_chars: false,
            ..CleaningOptions::default()
        }
    }

    /// Balanced preset for day-to-day text.
    pub fn balanced() -> (r: Self)
        ensures
            r == balanced_options(),
    {
        CleaningOptions {
            keyboard_only: false,
            unicode_normalization: UnicodeNormalizationMode::NFC,
            ..CleaningOptions::default()
        }
    }

    /// Humanize preset for AI/LLM-ish text.
    pub fn humanize() -> (r: Self)
        ensures
            r == humanize_options(),
    {
        CleaningOptions {
            keyboard_only: false,
            unicode_normalization: UnicodeNormalizationMode::NFKC,
            collapse_whitespace: true,
            ..CleaningOptions::default()
        }
    }

    /// Aggressive preset: maximum cleanup.
    pub fn aggressive() -> (r: Self)
        ensures
            r == aggressive_options(),
    {
        CleaningOptions {
            collapse_whitespace: true,
            normalize_line_endings: Some(LineEndingStyle::Lf),
            unicode_normalization: UnicodeNormalizationMode::NFKC,
            strip_bidi_controls: true,
            ..CleaningOptions::default()
        }
    }

    /// Code-safe preset: preserves semantic punctuation and Unicode glyphs
    /// while still removing hidden/control noise.
    pub fn code_safe() -> (r: Self)
        ensures
            r == code_safe_options(),
    {
        CleaningOptions {
            normalize_dashes: false,
            normalize_quotes: false,
            normalize_other: false,
            keyboard_only: false,
            emoji_policy: EmojiPolicy::Keep,
            preserve_joiners: true,
            ..CleaningOptions::default()
        }
    }
}

impl CleaningOptionsBuilder {
    /// Set `remove_hidden`.
    pub fn remove_hidden(self, value: bool) -> (r: Self)
        ensures
            r@ == (CleaningOptions { remove_hidden: value, ..self@ }),
    {
        CleaningOptionsBuilder { options: CleaningOptions { remove_hidden: value, ..self.options } }
    }

    /// Set `remove_trailing_whitespace`.
    pub fn remove_trailing_whitespace(self, value: bool) -> (r: Self)
        ensures
            r@ == (CleaningOptions { remove_trailing_whitespace: value, ..self@ }),
    {
        CleaningOptionsBuilder {
            options: CleaningOptions { remove_trailing_whitespace: value, ..self.options },
        }
    }

    /// Set `normalize_spaces`.
    pub fn normalize_spaces(self, value: bool) -> (r: Self)
        ensures
            r@ == (CleaningOptions { normalize_spaces: value, ..self@ }),
    {
        CleaningOptionsBuilder {
            options: CleaningOptions { normalize_spaces: value, ..self.options },
        }
    }

    /// Set `normalize_dashes`.
    pub fn normalize_dashes(self, value: bool) -> (r: Self)
        ensures
            r@ == (CleaningOptions { normalize_dashes: value, ..self@ }),
    {
        CleaningOptionsBuilder {
            options: CleaningOptions { normalize_dashes: value, ..self.options },
        }
    }

    /// Set `normalize_quotes`.
    pub fn normalize_quotes(self, value: bool) -> (r: Self)
        ensures
            r@ == (CleaningOptions { normalize_quotes: value, ..self@ }),
    {
        CleaningOptionsBuilder {
            options: CleaningOptions { normalize_quotes: value, ..self.options },
        }
    }

    /// Set `normalize_other`.
    pub fn normalize_other(self, value: bool) -> (r: Self)
        ensures
            r@ == (CleaningOptions { normalize_other: value, ..self@ }),
    {
        CleaningOptionsBuilder {
            options: CleaningOptions { normalize_other: value, ..self.options },
        }
    }

    /// Set `keyboard_only`.
    pub fn keyboard_only(self, value: bool) -> (r: Self)
        ensures
            r@ == (CleaningOptions { keyboard_only: value, ..self@ }),
    {
        CleaningOptionsBuilder { options: CleaningOptions { keyboard_only: value, ..self.options } }
    }

    /// Set `extended_keyboard`.
    pub fn extended_keyboard(self, value: bool) -> (r: Self)
        ensures
            r@ == (CleaningOptions { extended_keyboard: value, ..self@ }),
    {
        CleaningOptionsBuilder {
            options: CleaningOptions { extended_keyboard: value, ..self.options },
        }
    }

    /// Set `emoji_policy`.
    pub fn emoji_policy(self, policy: EmojiPolicy) -> (r: Self)
        ensures
            r@ == (CleaningOptions { emoji_policy: policy, ..self@ }),
    {
        CleaningOptionsBuilder { options: CleaningOptions { emoji_policy: policy, ..self.options } }
    }

    /// Set `non_ascii_policy`.
    pub fn non_ascii_policy(self, policy: NonAsciiPolicy) -> (r: Self)
        ensures
            r@ == (CleaningOptions { non_ascii_policy: policy, ..self@ }),
    {
        CleaningOptionsBuilder {
            options: CleaningOptions { non_ascii_policy: policy, ..self.options },
        }
    }

    /// Set `preserve_joiners`.
    pub fn preserve_joiners(self, value: bool) -> (r: Self)
        ensures
            r@ == (CleaningOptions { preserve_joiners: value, ..self@ }),
    {
        CleaningOptionsBuilder {
            options: CleaningOptions { preserve_joiners: value, ..self.options },
        }
    }

    /// Set `remove_control_chars`.
    pub fn remove_control_chars(self, value: bool) -> (r: Self)
        ensures
            r@ == (CleaningOptions { remove_control_chars: value, ..self@ }),
    {
        CleaningOptionsBuilder {
            options: CleaningOptions { remove_control_chars: value, ..self.options },
        }
    }

    /// Set `collapse_whitespace`.
    pub fn collapse_whitespace(self, value: bool) -> (r: Self)
        ensures
            r@ == (CleaningOptions { collapse_whitespace: value, ..self@ }),
    {
        CleaningOptionsBuilder {
            options: CleaningOptions { collapse_whitespace: value, ..self.options },
        }
    }

    /// Set `normalize_line_endings`.
    pub fn normalize_line_endings(self, value: Option<LineEndingStyle>) -> (r: Self)
        ensures
            r@ == (CleaningOptions { normalize_line_endings: value, ..self@ }),
    {
        CleaningOptionsBuilder {
            options: CleaningOptions { normalize_line_endings: value, ..self.options },
        }
    }

    /// Set `unicode_normalization`.
    pub fn unicode_normalization(self, mode: UnicodeNormalizationMode) -> (r: Self)
        ensures
            r@ == (CleaningOptions { unicode_normalization: mode, ..self@ }),
    {
        CleaningOptionsBuilder {
            options: CleaningOptions { unicode_normalization: mode, ..self.options },
        }
    }

    /// Set `strip_bidi_controls`.
    pub fn strip_bidi_controls(self, value: bool) -> (r: Self)
        ensures
            r@ == (CleaningOptions { strip_bidi_controls: value, ..self@ }),
    {
        CleaningOptionsBuilder {
            options: CleaningOptions { strip_bidi_controls: value, ..self.options },
        }
    }

    /// Build an immutable [`CleaningOptions`] value.
    pub fn build(self) -> (r: CleaningOptions)
        ensures
            r == self@,
    {
        self.options
    }
}

} // verus!
