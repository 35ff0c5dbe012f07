//! The command-line surface shared by the `rehuman` and `ishuman` programs:
//! presets, option overrides, the config-file schema, flag validation and
//! boolean flag parsing.

use vstd::prelude::*;
use vstd::std_specs::convert::FromSpecImpl;
use vstd::string::*;
use crate::options::{
    aggressive_options, balanced_options, code_safe_options, default_options, humanize_options,
    minimal_options, CleaningOptions, EmojiPolicy, LineEndingStyle, NonAsciiPolicy,
    UnicodeNormalizationMode,
};
use crate::rewrite::trim_chars;
use crate::rewrite::trim_ws;
use crate::stats::CleaningStats;
use crate::text::{chars_of, string_from_chars};

verus! {

/// Maximum input size accepted by non-streaming paths.
pub const MAX_INPUT_BYTES: usize = 5 * 1024 * 1024;

/// Version identifier for the on-disk config schema.
pub const CONFIG_VERSION: u32 = 1;

/// Named option presets for CLI workflows.
#[derive(Clone, Copy, Debug, PartialEq, Eq, Structural)]
pub enum PresetArg {
    Minimal,
    Balanced,
    Humanize,
    Aggressive,
    CodeSafe,
}

/// The options a preset stands for.
pub open spec fn preset_options(preset: PresetArg) -> CleaningOptions {
    match preset {
        PresetArg::Minimal => minimal_options(),
        PresetArg::Balanced => balanced_options(),
        PresetArg::Humanize => humanize_options(),
        PresetArg::Aggressive => aggressive_options(),
        PresetArg::CodeSafe => code_safe_options(),
    }
}

/// Build options for a named preset.
pub fn options_from_preset(preset: PresetArg) -> (r: CleaningOptions)
    ensures
        r == preset_options(preset),
{
    match preset {
        PresetArg::Minimal => CleaningOptions::minimal(),
        PresetArg::Balanced => CleaningOptions::balanced(),
        PresetArg::Humanize => CleaningOptions::humanize(),
        PresetArg::Aggressive => CleaningOptions::aggressive(),
        PresetArg::CodeSafe => CleaningOptions::code_safe(),
    }
}

/// CLI/config representation of the emoji policy.
#[derive(Clone, Copy, Debug, PartialEq, Eq, Structural)]
pub enum EmojiPolicyArg {
    Drop,
    Keep,
}

impl From<EmojiPolicyArg> for EmojiPolicy {
    fn from(value: EmojiPolicyArg) -> (r: Self) {
        match value {
            EmojiPolicyArg::Drop => EmojiPolicy::Drop,
            EmojiPolicyArg::Keep => EmojiPolicy::Keep,
        }
    }
}

impl FromSpecImpl<EmojiPolicyArg> for EmojiPolicy {
    open spec fn obeys_from_spec() -> bool {
        true
    }

    open spec fn from_spec(value: EmojiPolicyArg) -> EmojiPolicy {
        emoji_policy_of(value)
    }
}

impl From<EmojiPolicy> for EmojiPolicyArg {
    fn from(value: EmojiPolicy) -> (r: Self) {
        match value {
            EmojiPolicy::Drop => EmojiPolicyArg::Drop,
            EmojiPolicy::Keep => EmojiPolicyArg::Keep,
        }
    }
}

impl FromSpecImpl<EmojiPolicy> for EmojiPolicyArg {
    open spec fn obeys_from_spec() -> bool {
        true
    }

    open spec fn from_spec(value: EmojiPolicy) -> EmojiPolicyArg {
        emoji_arg_of(value)
    }
}

/// CLI/config representation of non-ASCII handling in keyboard-only mode.
#[derive(Clone, Copy, Debug, PartialEq, Eq, Structural)]
pub enum NonAsciiPolicyArg {
    Drop,
    Fold,
    Transliterate,
}

impl From<NonAsciiPolicyArg> for NonAsciiPolicy {
    fn from(value: NonAsciiPolicyArg) -> (r: Self) {
        match value {
            NonAsciiPolicyArg::Drop => NonAsciiPolicy::Drop,
            NonAsciiPolicyArg::Fold => NonAsciiPolicy::Fold,
            NonAsciiPolicyArg::Transliterate => NonAsciiPolicy::Transliterate,
        }
    }
}

impl FromSpecImpl<NonAsciiPolicyArg> for NonAsciiPolicy {
    open spec fn obeys_from_spec() -> bool {
        true
    }

    open spec fn from_spec(value: NonAsciiPolicyArg) -> NonAsciiPolicy {
        non_ascii_policy_of(value)
    }
}

impl From<NonAsciiPolicy> for NonAsciiPolicyArg {
    fn from(value: NonAsciiPolicy) -> (r: Self) {
        match value {
            NonAsciiPolicy::Drop => NonAsciiPolicyArg::Drop,
            NonAsciiPolicy::Fold => NonAsciiPolicyArg::Fold,
            NonAsciiPolicy::Transliterate => NonAsciiPolicyArg::Transliterate,
        }
    }
}

impl FromSpecImpl<NonAsciiPolicy> for NonAsciiPolicyArg {
    open spec fn obeys_from_spec() -> bool {
        true
    }

    open spec fn from_spec(value: NonAsciiPolicy) -> NonAsciiPolicyArg {
        non_ascii_arg_of(value)
    }
}

/// CLI/config representation of the line-ending strategy.
#[derive(Clone, Copy, Debug, PartialEq, Eq, Structural)]
pub enum LineEndingChoice {
    /// Leave line endings as they are.
    Auto,
    Lf,
    Crlf,
    Cr,
}

/// The library option a line-ending choice stands for.
pub open spec fn line_ending_option(choice: LineEndingChoice) -> Option<LineEndingStyle> {
    match choice {
        LineEndingChoice::Auto => None,
        LineEndingChoice::Lf => Some(LineEndingStyle::Lf),
        LineEndingChoice::Crlf => Some(LineEndingStyle::Crlf),
        LineEndingChoice::Cr => Some(LineEndingStyle::Cr),
    }
}

/// The line-ending choice for a library option.
pub open spec fn line_ending_choice(value: Option<LineEndingStyle>) -> LineEndingChoice {
    match value {
        Some(LineEndingStyle::Lf) => LineEndingChoice::Lf,
        Some(LineEndingStyle::Crlf) => LineEndingChoice::Crlf,
        Some(LineEndingStyle::Cr) => LineEndingChoice::Cr,
        None => LineEndingChoice::Auto,
    }
}

impl LineEndingChoice {
    /// Convert the CLI/config choice into the library line-ending option:
    /// `None` for `auto`, otherwise the style to enforce.
    pub fn into_option(self) -> (r: Option<LineEndingStyle>)
        ensures
            r == line_ending_option(self),
    {
        match self {
            LineEndingChoice::Auto => None,
            LineEndingChoice::Lf => Some(LineEndingStyle::Lf),
            LineEndingChoice::Crlf => Some(LineEndingStyle::Crlf),
            LineEndingChoice::Cr => Some(LineEndingStyle::Cr),
        }
    }
}

impl From<Option<LineEndingStyle>> for LineEndingChoice {
    fn from(value: Option<LineEndingStyle>) -> (r: Self) {
        match value {
            Some(LineEndingStyle::Lf) => LineEndingChoice::Lf,
            Some(LineEndingStyle::Crlf) => LineEndingChoice::Crlf,
            Some(LineEndingStyle::Cr) => LineEndingChoice::Cr,
            None => LineEndingChoice::Auto,
        }
    }
}

impl FromSpecImpl<Option<LineEndingStyle>> for LineEndingChoice {
    open spec fn obeys_from_spec() -> bool {
        true
    }

    open spec fn from_spec(value: Option<LineEndingStyle>) -> LineEndingChoice {
        line_ending_choice(value)
    }
}

/// CLI/config representation of the Unicode normalization mode.
#[derive(Clone, Copy, Debug, PartialEq, Eq, Structural)]
pub enum UnicodeNormalizationChoice {
    /// No normalization.
    Disabled,
    Nfd,
    Nfc,
    Nfkd,
    Nfkc,
}

impl From<UnicodeNormalizationChoice> for UnicodeNormalizationMode {
    fn from(value: UnicodeNormalizationChoice) -> (r: Self) {
        match value {
            UnicodeNormalizationChoice::Disabled => UnicodeNormalizationMode::Disabled,
            UnicodeNormalizationChoice::Nfd => UnicodeNormalizationMode::NFD,
            UnicodeNormalizationChoice::Nfc => UnicodeNormalizationMode::NFC,
            UnicodeNormalizationChoice::Nfkd => UnicodeNormalizationMode::NFKD,
            UnicodeNormalizationChoice::Nfkc => UnicodeNormalizationMode::NFKC,
        }
    }
}

impl FromSpecImpl<UnicodeNormalizationChoice> for UnicodeNormalizationMode {
    open spec fn obeys_from_spec() -> bool {
        true
    }

    open spec fn from_spec(value: UnicodeNormalizationChoice) -> UnicodeNormalizationMode {
        normalization_mode_of(value)
    }
}

impl From<UnicodeNormalizationMode> for UnicodeNormalizationChoice {
    fn from(value: UnicodeNormalizationMode) -> (r: Self) {
        match value {
            UnicodeNormalizationMode::Disabled => UnicodeNormalizationChoice::Disabled,
            UnicodeNormalizationMode::NFD => UnicodeNormalizationChoice::Nfd,
            UnicodeNormalizationMode::NFC => UnicodeNormalizationChoice::Nfc,
            UnicodeNormalizationMode::NFKD => UnicodeNormalizationChoice::Nfkd,
            UnicodeNormalizationMode::NFKC => UnicodeNormalizationChoice::Nfkc,
        }
    }
}

impl FromSpecImpl<UnicodeNormalizationMode> for UnicodeNormalizationChoice {
    open spec fn obeys_from_spec() -> bool {
        true
    }

    open spec fn from_spec(value: UnicodeNormalizationMode) -> UnicodeNormalizationChoice {
        normalization_choice_of(value)
    }
}


/// The library emoji policy a CLI value stands for.
pub open spec fn emoji_policy_of(a: EmojiPolicyArg) -> EmojiPolicy {
    match a {
        EmojiPolicyArg::Drop => EmojiPolicy::Drop,
        EmojiPolicyArg::Keep => EmojiPolicy::Keep,
    }
}

/// The CLI value for a library emoji policy.
pub open spec fn emoji_arg_of(p: EmojiPolicy) -> EmojiPolicyArg {
    match p {
        EmojiPolicy::Drop => EmojiPolicyArg::Drop,
        EmojiPolicy::Keep => EmojiPolicyArg::Keep,
    }
}

/// The library non-ASCII policy a CLI value stands for.
pub open spec fn non_ascii_policy_of(a: NonAsciiPolicyArg) -> NonAsciiPolicy {
    match a {
        NonAsciiPolicyArg::Drop => NonAsciiPolicy::Drop,
        NonAsciiPolicyArg::Fold => NonAsciiPolicy::Fold,
        NonAsciiPolicyArg::Transliterate => NonAsciiPolicy::Transliterate,
    }
}

/// The CLI value for a library non-ASCII policy.
pub open spec fn non_ascii_arg_of(p: NonAsciiPolicy) -> NonAsciiPolicyArg {
    match p {
        NonAsciiPolicy::Drop => NonAsciiPolicyArg::Drop,
        NonAsciiPolicy::Fold => NonAsciiPolicyArg::Fold,
        NonAsciiPolicy::Transliterate => NonAsciiPolicyArg::Transliterate,
    }
}

/// The library normalization mode a CLI value stands for.
pub open spec fn normalization_mode_of(c: UnicodeNormalizationChoice) -> UnicodeNormalizationMode {
    match c {
        UnicodeNormalizationChoice::Disabled => UnicodeNormalizationMode::Disabled,
        UnicodeNormalizationChoice::Nfd => UnicodeNormalizationMode::NFD,
        UnicodeNormalizationChoice::Nfc => UnicodeNormalizationMode::NFC,
        UnicodeNormalizationChoice::Nfkd => UnicodeNormalizationMode::NFKD,
        UnicodeNormalizationChoice::Nfkc => UnicodeNormalizationMode::NFKC,
    }
}

/// The CLI value for a library normalization mode.
pub open spec fn normalization_choice_of(m: UnicodeNormalizationMode) -> UnicodeNormalizationChoice {
    match m {
        UnicodeNormalizationMode::Disabled => UnicodeNormalizationChoice::Disabled,
        UnicodeNormalizationMode::NFD => UnicodeNormalizationChoice::Nfd,
        UnicodeNormalizationMode::NFC => UnicodeNormalizationChoice::Nfc,
        UnicodeNormalizationMode::NFKD => UnicodeNormalizationChoice::Nfkd,
        UnicodeNormalizationMode::NFKC => UnicodeNormalizationChoice::Nfkc,
    }
}

/// Sparse option overrides from CLI flags.
#[derive(Clone, Copy, Debug)]
pub struct PartialOptions {
    pub remove_hidden: Option<bool>,
    pub remove_trailing_whitespace: Option<bool>,
    pub normalize_spaces: Option<bool>,
    pub normalize_dashes: Option<bool>,
    pub normalize_quotes: Option<bool>,
    pub normalize_other: Option<bool>,
    pub keyboard_only: Option<bool>,
    pub extended_keyboard: Option<bool>,
    pub emoji_policy: Option<EmojiPolicyArg>,
    pub non_ascii_policy: Option<NonAsciiPolicyArg>,
    pub preserve_joiners: Option<bool>,
    pub remove_control_chars: Option<bool>,
    pub collapse_whitespace: Option<bool>,
    pub line_endings: Option<LineEndingChoice>,
    pub unicode_normalization: Option<UnicodeNormalizationChoice>,
}

impl Default for PartialOptions {
    fn default() -> (r: Self)
        ensures
            r == no_overrides(),
    {
        PartialOptions {
            remove_hidden: None,
            remove_trailing_whitespace: None,
            normalize_spaces: None,
            normalize_dashes: None,
            normalize_quotes: None,
            normalize_other: None,
            keyboard_only: None,
            extended_keyboard: None,
            emoji_policy: None,
            non_ascii_policy: None,
            preserve_joiners: None,
            remove_control_chars: None,
            collapse_whitespace: None,
            line_endings: None,
            unicode_normalization: None,
        }
    }
}

/// No override at all.
pub open spec fn no_overrides() -> PartialOptions {
    PartialOptions {
        remove_hidden: None,
        remove_trailing_whitespace: None,
        normalize_spaces: None,
        normalize_dashes: None,
        normalize_quotes: None,
        normalize_other: None,
        keyboard_only: None,
        extended_keyboard: None,
        emoji_policy: None,
        non_ascii_policy: None,
        preserve_joiners: None,
        remove_control_chars: None,
        collapse_whitespace: None,
        line_endings: None,
        unicode_normalization: None,
    }
}

/// The value an override gives, or `d` when there is none.
pub open spec fn or_keep<T>(v: Option<T>, d: T) -> T {
    match v {
        Some(x) => x,
        None => d,
    }
}

/// `o` with the overrides of `p` applied.
pub open spec fn applied(p: PartialOptions, o: CleaningOptions) -> CleaningOptions {
    CleaningOptions {
        remove_hidden: or_keep(p.remove_hidden, o.remove_hidden),
        remove_trailing_whitespace: or_keep(p.remove_trailing_whitespace, o.remove_trailing_whitespace),
        normalize_spaces: or_keep(p.normalize_spaces, o.normalize_spaces),
        normalize_dashes: or_keep(p.normalize_dashes, o.normalize_dashes),
        normalize_quotes: or_keep(p.normalize_quotes, o.normalize_quotes),
        normalize_other: or_keep(p.normalize_other, o.normalize_other),
        keyboard_only: or_keep(p.keyboard_only, o.keyboard_only),
        extended_keyboard: or_keep(p.extended_keyboard, o.extended_keyboard),
        preserve_joiners: or_keep(p.preserve_joiners, o.preserve_joiners),
        remove_control_chars: or_keep(p.remove_control_chars, o.remove_control_chars),
        collapse_whitespace: or_keep(p.collapse_whitespace, o.collapse_whitespace),
        emoji_policy: match p.emoji_policy {
            Some(a) => emoji_policy_of(a),
            None => o.emoji_policy,
        },
        non_ascii_policy: match p.non_ascii_policy {
            Some(a) => non_ascii_policy_of(a),
            None => o.non_ascii_policy,
        },
        normalize_line_endings: match p.line_endings {
            Some(c) => line_ending_option(c),
            None => o.normalize_line_endings,
        },
        unicode_normalization: match p.unicode_normalization {
            Some(c) => normalization_mode_of(c),
            None => o.unicode_normalization,
        },
        ..o
    }
}

impl PartialOptions {
    /// Apply only explicitly provided option values onto a full options struct.
    pub fn apply_to(self, options: &mut CleaningOptions)
        ensures
            *final(options) == applied(self, *old(options)),
    {
        let current = *options;
        let updated = CleaningOptions {
            remove_hidden: match self.remove_hidden {
                Some(val) => val,
                None => current.remove_hidden,
            },
            remove_trailing_whitespace: match self.remove_trailing_whitespace {
                Some(val) => val,
                None => current.remove_trailing_whitespace,
            },
            normalize_spaces: match self.normalize_spaces {
                Some(val) => val,
                None => current.normalize_spaces,
            },
            normalize_dashes: match self.normalize_dashes {
                Some(val) => val,
                None => current.normalize_dashes,
            },
            normalize_quotes: match self.normalize_quotes {
                Some(val) => val,
                None => current.normalize_quotes,
            },
            normalize_other: match self.normalize_other {
                Some(val) => val,
                None => current.normalize_other,
            },
            keyboard_only: match self.keyboard_only {
                Some(val) => val,
                None => current.keyboard_only,
            },
            extended_keyboard: match self.extended_keyboard {
                Some(val) => val,
                None => current.extended_keyboard,
            },
            preserve_joiners: match self.preserve_joiners {
                Some(val) => val,
                None => current.preserve_joiners,
            },
            remove_control_chars: match self.remove_control_chars {
                Some(val) => val,
                None => current.remove_control_chars,
            },
            collapse_whitespace: match self.collapse_whitespace {
                Some(val) => val,
                None => current.collapse_whitespace,
            },
            emoji_policy: match self.emoji_policy {
                Some(policy) => EmojiPolicy::from(policy),
                None => current.emoji_policy,
            },
            non_ascii_policy: match self.non_ascii_policy {
                Some(policy) => NonAsciiPolicy::from(policy),
                None => current.non_ascii_policy,
            },
            normalize_line_endings: match self.line_endings {
                Some(choice) => choice.into_option(),
                None => current.normalize_line_endings,
            },
            unicode_normalization: match self.unicode_normalization {
                Some(choice) => UnicodeNormalizationMode::from(choice),
                None => current.unicode_normalization,
            },
            strip_bidi_controls: current.strip_bidi_controls,
        };
        *options = updated;
    }
}

/// The CLI flags shared by `rehuman` and `ishuman`, as parsed.
#[derive(Clone, Debug)]
pub struct SharedCliOptions {
    /// A named preset (for example `code-safe` for docs/source text).
    pub preset: Option<PresetArg>,
    pub remove_hidden: Option<bool>,
    pub remove_trailing_whitespace: Option<bool>,
    pub normalize_spaces: Option<bool>,
    pub normalize_dashes: Option<bool>,
    pub normalize_quotes: Option<bool>,
    pub normalize_other: Option<bool>,
    pub keyboard_only: Option<bool>,
    pub extended_keyboard: Option<bool>,
    /// Let emoji pass through even when keyboard-only mode is on.
    pub keep_emoji: bool,
    pub emoji_policy: Option<EmojiPolicyArg>,
    pub non_ascii_policy: Option<NonAsciiPolicyArg>,
    pub preserve_joiners: Option<bool>,
    pub remove_control_chars: Option<bool>,
    pub collapse_whitespace: Option<bool>,
    pub line_endings: Option<LineEndingChoice>,
    pub unicode_normalization: Option<UnicodeNormalizationChoice>,
    /// Path to the config file.
    pub config: Option<String>,
}

/// The overrides that shared CLI flags stand for: `--keep-emoji` wins over
/// `--emoji-policy`.
pub open spec fn partial_from_cli(c: SharedCliOptions) -> PartialOptions {
    PartialOptions {
        remove_hidden: c.remove_hidden,
        remove_trailing_whitespace: c.remove_trailing_whitespace,
        normalize_spaces: c.normalize_spaces,
        normalize_dashes: c.normalize_dashes,
        normalize_quotes: c.normalize_quotes,
        normalize_other: c.normalize_other,
        keyboard_only: c.keyboard_only,
        extended_keyboard: c.extended_keyboard,
        emoji_policy: if c.keep_emoji {
            Some(EmojiPolicyArg::Keep)
        } else {
            c.emoji_policy
        },
        non_ascii_policy: c.non_ascii_policy,
        preserve_joiners: c.preserve_joiners,
        remove_control_chars: c.remove_control_chars,
        collapse_whitespace: c.collapse_whitespace,
        line_endings: c.line_endings,
        unicode_normalization: c.unicode_normalization,
    }
}

impl SharedCliOptions {
    /// Convert shared CLI flags into sparse option overrides.
    pub fn to_partial_options(&self) -> (r: PartialOptions)
        ensures
            r == partial_from_cli(*self),
    {
        let mut partial = PartialOptions {
            remove_hidden: self.remove_hidden,
            remove_trailing_whitespace: self.remove_trailing_whitespace,
            normalize_spaces: self.normalize_spaces,
            normalize_dashes: self.normalize_dashes,
            normalize_quotes: self.normalize_quotes,
            normalize_other: self.normalize_other,
            keyboard_only: self.keyboard_only,
            extended_keyboard: self.extended_keyboard,
            emoji_policy: None,
            non_ascii_policy: self.non_ascii_policy,
            preserve_joiners: self.preserve_joiners,
            remove_control_chars: self.remove_control_chars,
            collapse_whitespace: self.collapse_whitespace,
            line_endings: self.line_endings,
            unicode_normalization: self.unicode_normalization,
        };
        if self.keep_emoji {
            partial.emoji_policy = Some(EmojiPolicyArg::Keep);
        } else if let Some(policy) = self.emoji_policy {
            partial.emoji_policy = Some(policy);
        }
        partial
    }

    /// Whether `--keep-emoji` or `--emoji-policy` was provided.
    pub fn emoji_policy_specified_by_user(&self) -> (r: bool)
        ensures
            r == (self.keep_emoji || self.emoji_policy is Some),
    {
        self.keep_emoji || self.emoji_policy.is_some()
    }

    /// Whether `--non-ascii-policy` was provided.
    pub fn non_ascii_policy_specified_by_user(&self) -> (r: bool)
        ensures
            r == self.non_ascii_policy is Some,
    {
        self.non_ascii_policy.is_some()
    }

    /// Whether `--extended-keyboard` was provided.
    pub fn extended_keyboard_specified_by_user(&self) -> (r: bool)
        ensures
            r == self.extended_keyboard is Some,
    {
        self.extended_keyboard.is_some()
    }
}

/// Serializable options payload used by the on-disk config file.
#[derive(Clone, Copy, Debug, PartialEq, Eq, Structural)]
pub struct SerializableOptions {
    pub remove_hidden: bool,
    pub remove_trailing_whitespace: bool,
    pub normalize_spaces: bool,
    pub normalize_dashes: bool,
    pub normalize_quotes: bool,
    pub normalize_other: bool,
    pub keyboard_only: bool,
    pub extended_keyboard: bool,
    pub emoji_policy: EmojiPolicyArg,
    pub non_ascii_policy: NonAsciiPolicyArg,
    pub preserve_joiners: bool,
    pub remove_control_chars: bool,
    pub collapse_whitespace: bool,
    pub line_endings: LineEndingChoice,
    pub unicode_normalization: UnicodeNormalizationChoice,
}

/// The runtime options a config payload stands for (every field not in the
/// payload takes its default).
pub open spec fn serializable_to_options(s: SerializableOptions) -> CleaningOptions {
    CleaningOptions {
        remove_hidden: s.remove_hidden,
        remove_trailing_whitespace: s.remove_trailing_whitespace,
        normalize_spaces: s.normalize_spaces,
        normalize_dashes: s.normalize_dashes,
        normalize_quotes: s.normalize_quotes,
        normalize_other: s.normalize_other,
        keyboard_only: s.keyboard_only,
        extended_keyboard: s.extended_keyboard,
        preserve_joiners: s.preserve_joiners,
        remove_control_chars: s.remove_control_chars,
        collapse_whitespace: s.collapse_whitespace,
        emoji_policy: emoji_policy_of(s.emoji_policy),
        non_ascii_policy: non_ascii_policy_of(s.non_ascii_policy),
        normalize_line_endings: line_ending_option(s.line_endings),
        unicode_normalization: normalization_mode_of(s.unicode_normalization),
        ..default_options()
    }
}

/// The config payload for runtime options.
pub open spec fn options_to_serializable(o: CleaningOptions) -> SerializableOptions {
    SerializableOptions {
        remove_hidden: o.remove_hidden,
        remove_trailing_whitespace: o.remove_trailing_whitespace,
        normalize_spaces: o.normalize_spaces,
        normalize_dashes: o.normalize_dashes,
        normalize_quotes: o.normalize_quotes,
        normalize_other: o.normalize_other,
        keyboard_only: o.keyboard_only,
        extended_keyboard: o.extended_keyboard,
        preserve_joiners: o.preserve_joiners,
        remove_control_chars: o.remove_control_chars,
        collapse_whitespace: o.collapse_whitespace,
        emoji_policy: emoji_arg_of(o.emoji_policy),
        non_ascii_policy: non_ascii_arg_of(o.non_ascii_policy),
        line_endings: line_ending_choice(o.normalize_line_endings),
        unicode_normalization: normalization_choice_of(o.unicode_normalization),
    }
}

impl SerializableOptions {
    /// Convert serializable config values into runtime cleaning options.
    pub fn to_cleaning_options(&self) -> (r: CleaningOptions)
        ensures
            r == serializable_to_options(*self),
    {
        CleaningOptions::builder()
            .remove_hidden(self.remove_hidden)
            .remove_trailing_whitespace(self.remove_trailing_whitespace)
            .normalize_spaces(self.normalize_spaces)
            .normalize_dashes(self.normalize_dashes)
            .normalize_quotes(self.normalize_quotes)
            .normalize_other(self.normalize_other)
            .keyboard_only(self.keyboard_only)
            .extended_keyboard(self.extended_keyboard)
            .emoji_policy(EmojiPolicy::from(self.emoji_policy))
            .non_ascii_policy(NonAsciiPolicy::from(self.non_ascii_policy))
            .preserve_joiners(self.preserve_joiners)
            .remove_control_chars(self.remove_control_chars)
            .collapse_whitespace(self.collapse_whitespace)
            .normalize_line_endings(self.line_endings.into_option())
            .unicode_normalization(UnicodeNormalizationMode::from(self.unicode_normalization))
            .build()
    }

    /// Build a serializable snapshot from runtime cleaning options.
    pub fn from_cleaning_options(options: &CleaningOptions) -> (r: Self)
        ensures
            r == options_to_serializable(*options),
    {
        SerializableOptions {
            remove_hidden: options.remove_hidden,
            remove_trailing_whitespace: options.remove_trailing_whitespace,
            normalize_spaces: options.normalize_spaces,
            normalize_dashes: options.normalize_dashes,
            normalize_quotes: options.normalize_quotes,
            normalize_other: options.normalize_other,
            keyboard_only: options.keyboard_only,
            extended_keyboard: options.extended_keyboard,
            preserve_joiners: options.preserve_joiners,
            remove_control_chars: options.remove_control_chars,
            collapse_whitespace: options.collapse_whitespace,
            emoji_policy: EmojiPolicyArg::from(options.emoji_policy),
            non_ascii_policy: NonAsciiPolicyArg::from(options.non_ascii_policy),
            line_endings: LineEndingChoice::from(options.normalize_line_endings),
            unicode_normalization: UnicodeNormalizationChoice::from(options.unicode_normalization),
        }
    }
}

impl Default for SerializableOptions {
    fn default() -> (r: Self)
        ensures
            r == options_to_serializable(default_options()),
    {
        Self::from_cleaning_options(&default_cli_options())
    }
}

/// Top-level on-disk config schema.
#[derive(Clone, Copy, Debug)]
pub struct ConfigFile {
    pub version: u32,
    pub options: SerializableOptions,
}

impl Default for ConfigFile {
    fn default() -> (r: Self)
        ensures
            r.version == CONFIG_VERSION,
            r.options == options_to_serializable(default_options()),
    {
        ConfigFile { version: CONFIG_VERSION, options: SerializableOptions::default() }
    }
}

/// Default options used by the CLI programs when no config or overrides
/// are provided.
pub fn default_cli_options() -> (r: CleaningOptions)
    ensures
        r == default_options(),
{
    CleaningOptions::default()
}

/// A flag whose effect depends on keyboard-only mode.
#[derive(Clone, Copy, Debug, PartialEq, Eq, Structural)]
pub enum DependentFlag {
    EmojiPolicy,
    NonAsciiPolicy,
    ExtendedKeyboard,
}

/// How a dependent flag is named in messages.
pub open spec fn flag_label(f: DependentFlag) -> Seq<char> {
    match f {
        DependentFlag::EmojiPolicy => "'--keep-emoji'/'--emoji-policy'"@,
        DependentFlag::NonAsciiPolicy => "'--non-ascii-policy'"@,
        DependentFlag::ExtendedKeyboard => "'--extended-keyboard'"@,
    }
}

impl DependentFlag {
    /// How the flag is spelled in messages.
    pub fn label(&self) -> (r: &'static str)
        ensures
            r@ == flag_label(*self),
    {
        match self {
            DependentFlag::EmojiPolicy => "'--keep-emoji'/'--emoji-policy'",
            DependentFlag::NonAsciiPolicy => "'--non-ascii-policy'",
            DependentFlag::ExtendedKeyboard => "'--extended-keyboard'",
        }
    }
}

/// Errors of the CLI configuration logic.
#[derive(Clone, Copy, Debug, PartialEq, Eq, Structural)]
pub enum CliError {
    /// A flag that only matters in keyboard-only mode was given explicitly
    /// while keyboard-only mode is off.
    KeyboardOnlyRequired { flag: DependentFlag },
    /// The config file has a schema version this program does not read.
    UnsupportedConfigVersion { found: u32, expected: u32 },
}

/// How a decimal digit is written.
pub open spec fn digit_char(d: nat) -> char {
    if d == 0 {
        '0'
    } else if d == 1 {
        '1'
    } else if d == 2 {
        '2'
    } else if d == 3 {
        '3'
    } else if d == 4 {
        '4'
    } else if d == 5 {
        '5'
    } else if d == 6 {
        '6'
    } else if d == 7 {
        '7'
    } else if d == 8 {
        '8'
    } else {
        '9'
    }
}

/// How a number is written in decimal, without leading zeros.
pub open spec fn decimal(n: nat) -> Seq<char>
    decreases n,
{
    if n < 10 {
        seq![digit_char(n)]
    } else {
        decimal(n / 10).push(digit_char(n % 10))
    }
}

/// The message a CLI error is reported with. The emoji label names two flags,
/// so its verb is plural.
pub open spec fn cli_error_message(e: CliError) -> Seq<char> {
    match e {
        CliError::KeyboardOnlyRequired { flag } => flag_label(flag) + (if flag
            == DependentFlag::EmojiPolicy {
            " require"@
        } else {
            " requires"@
        }) + " keyboard-only mode; set '--keyboard-only true' or remove the "@ + flag_label(flag)
            + " flag"@,
        CliError::UnsupportedConfigVersion { found, expected } => "unsupported config version "@
            + decimal(found as nat) + " (expected "@ + decimal(expected as nat) + ")"@,
    }
}

fn digit_of(d: u64) -> (r: char)
    requires
        d < 10,
    ensures
        r == digit_char(d as nat),
{
    match d {
        0 => '0',
        1 => '1',
        2 => '2',
        3 => '3',
        4 => '4',
        5 => '5',
        6 => '6',
        7 => '7',
        8 => '8',
        _ => '9',
    }
}

fn decimal_chars(n: u64) -> (r: Vec<char>)
    ensures
        r@ == decimal(n as nat),
    decreases n,
{
    if n < 10 {
        let r = vec![digit_of(n)];
        assert(r@ =~= seq![digit_char(n as nat)]);
        r
    } else {
        let mut r = decimal_chars(n / 10);
        r.push(digit_of(n % 10));
        r
    }
}

fn append_chars(out: &mut Vec<char>, text: &Vec<char>)
    ensures
        final(out)@ == old(out)@ + text@,
{
    let mut k: usize = 0;
    while k < text.len()
        invariant
            k <= text.len(),
            out@ == old(out)@ + text@.take(k as int),
        decreases text.len() - k,
    {
        out.push(text[k]);
        k = k + 1;
        assert(out@ =~= old(out)@ + text@.take(k as int));
    }
    assert(text@.take(text.len() as int) =~= text@);
}

fn append_str(out: &mut Vec<char>, text: &str)
    ensures
        final(out)@ == old(out)@ + text@,
{
    let chars = chars_of(text);
    append_chars(out, &chars);
}

impl CliError {
    /// The message the error is reported with.
    pub fn message(&self) -> (r: String)
        ensures
            r@ == cli_error_message(*self),
    {
        let mut text: Vec<char> = Vec::new();
        match self {
            CliError::KeyboardOnlyRequired { flag } => {
                let label = flag.label();
                append_str(&mut text, label);
                match flag {
                    DependentFlag::EmojiPolicy => append_str(&mut text, " require"),
                    _ => append_str(&mut text, " requires"),
                }
                append_str(
                    &mut text,
                    " keyboard-only mode; set '--keyboard-only true' or remove the ",
                );
                append_str(&mut text, label);
                append_str(&mut text, " flag");
            },
            CliError::UnsupportedConfigVersion { found, expected } => {
                append_str(&mut text, "unsupported config version ");
                append_chars(&mut text, &decimal_chars(*found as u64));
                append_str(&mut text, " (expected ");
                append_chars(&mut text, &decimal_chars(*expected as u64));
                append_str(&mut text, ")");
            },
        }
        string_from_chars(&text)
    }
}

/// The options a config file stands for, or the version error.
pub open spec fn config_options(config: ConfigFile) -> Result<CleaningOptions, CliError> {
    if config.version != CONFIG_VERSION {
        Err(CliError::UnsupportedConfigVersion { found: config.version, expected: CONFIG_VERSION })
    } else {
        Ok(serializable_to_options(config.options))
    }
}

/// Validate a parsed config file and turn it into runtime options.
pub fn options_from_config(config: &ConfigFile) -> (r: Result<CleaningOptions, CliError>)
    ensures
        r == config_options(*config),
{
    if config.version != CONFIG_VERSION {
        return Err(
            CliError::UnsupportedConfigVersion { found: config.version, expected: CONFIG_VERSION },
        );
    }
    Ok(config.options.to_cleaning_options())
}

/// The outcome of checking that a flag given explicitly is meaningful.
pub open spec fn dependency_check(options: CleaningOptions, specified: bool, flag: DependentFlag) -> Result<(), CliError> {
    if specified && !options.keyboard_only {
        Err(CliError::KeyboardOnlyRequired { flag })
    } else {
        Ok(())
    }
}

fn validate_keyboard_only_dependency(
    options: &CleaningOptions,
    dependent_flag_specified_by_user: bool,
    flag: DependentFlag,
) -> (r: Result<(), CliError>)
    ensures
        r == dependency_check(*options, dependent_flag_specified_by_user, flag),
{
    if dependent_flag_specified_by_user && !options.keyboard_only {
        return Err(CliError::KeyboardOnlyRequired { flag });
    }
    Ok(())
}

/// Validate that an explicitly requested emoji policy is meaningful: it is
/// only effective in keyboard-only mode.
pub fn validate_emoji_policy_dependency(
    options: &CleaningOptions,
    emoji_policy_specified_by_user: bool,
) -> (r: Result<(), CliError>)
    ensures
        r == dependency_check(*options, emoji_policy_specified_by_user, DependentFlag::EmojiPolicy),
{
    validate_keyboard_only_dependency(options, emoji_policy_specified_by_user, DependentFlag::EmojiPolicy)
}

/// Validate that explicit non-ASCII handling is meaningful: it is only
/// effective in keyboard-only mode.
pub fn validate_non_ascii_policy_dependency(
    options: &CleaningOptions,
    non_ascii_policy_specified_by_user: bool,
) -> (r: Result<(), CliError>)
    ensures
        r == dependency_check(
            *options,
            non_ascii_policy_specified_by_user,
            DependentFlag::NonAsciiPolicy,
        ),
{
    validate_keyboard_only_dependency(
        options,
        non_ascii_policy_specified_by_user,
        DependentFlag::NonAsciiPolicy,
    )
}

/// Validate that explicit extended keyboard mode is meaningful: it is only
/// effective in keyboard-only mode.
pub fn validate_extended_keyboard_dependency(
    options: &CleaningOptions,
    extended_keyboard_specified_by_user: bool,
) -> (r: Result<(), CliError>)
    ensures
        r == dependency_check(
            *options,
            extended_keyboard_specified_by_user,
            DependentFlag::ExtendedKeyboard,
        ),
{
    validate_keyboard_only_dependency(
        options,
        extended_keyboard_specified_by_user,
        DependentFlag::ExtendedKeyboard,
    )
}

/// JSON-serializable summary payload for stats output.
#[derive(Clone, Copy, Debug)]
pub struct StatsSummary {
    pub changed: bool,
    pub changes_made: u64,
    pub stats: CleaningStats,
}


/// `c` with ASCII upper-case letters lowered.
pub open spec fn ascii_lower_char(c: char) -> char {
    if 'A' <= c && c <= 'Z' {
        ((c as u32) + 32) as char
    } else {
        c
    }
}

/// `s` with ASCII upper-case letters lowered (as std `str::to_ascii_lowercase`).
pub open spec fn ascii_lower(s: Seq<char>) -> Seq<char> {
    s.map_values(|c: char| ascii_lower_char(c))
}

/// The spellings read as `true`.
pub open spec fn truthy(w: Seq<char>) -> bool {
    w == "true"@ || w == "t"@ || w == "1"@ || w == "yes"@ || w == "y"@ || w == "on"@
}

/// The spellings read as `false`.
pub open spec fn falsy(w: Seq<char>) -> bool {
    w == "false"@ || w == "f"@ || w == "0"@ || w == "no"@ || w == "n"@ || w == "off"@
}

/// The boolean a flag value spells after trimming and lowering, or the
/// message for a value that spells none.
pub open spec fn bool_flag_value(v: Seq<char>) -> Result<bool, Seq<char>> {
    let w = ascii_lower(trim_ws(v));
    if truthy(w) {
        Ok(true)
    } else if falsy(w) {
        Ok(false)
    } else {
        Err("invalid boolean value '"@ + w + "'"@)
    }
}

fn lower_ascii_chars(s: &Vec<char>) -> (r: Vec<char>)
    ensures
        r@ == ascii_lower(s@),
{
    let mut r: Vec<char> = Vec::new();
    let mut i: usize = 0;
    while i < s.len()
        invariant
            i <= s.len(),
            r@ == ascii_lower(s@.take(i as int)),
        decreases s.len() - i,
    {
        let c = s[i];
        let l = if 'A' <= c && c <= 'Z' {
            ((c as u8) + 32) as char
        } else {
            c
        };
        r.push(l);
        assert(r@ =~= ascii_lower(s@.take(i + 1)));
        i = i + 1;
    }
    assert(s@.take(s.len() as int) =~= s@);
    r
}

fn chars_equal(v: &Vec<char>, lit: &str) -> (r: bool)
    ensures
        r == (v@ == lit@),
{
    let n = lit.unicode_len();
    if v.len() != n {
        return false;
    }
    let mut i: usize = 0;
    while i < n
        invariant
            i <= n,
            n == v@.len(),
            n == lit@.len(),
            forall|j: int| 0 <= j < i ==> v@[j] == lit@[j],
        decreases n - i,
    {
        if v[i] != lit.get_char(i) {
            return false;
        }
        i = i + 1;
    }
    assert(v@ =~= lit@);
    true
}

/// One `label value` line of the human-readable stats report.
pub open spec fn stat_line(label: Seq<char>, value: u64) -> Seq<char> {
    label + decimal(value as nat) + seq!['\n']
}

/// The human-readable stats report: the change total, then one line per
/// counter, each line ending with a newline.
pub open spec fn stats_report_text(changes_made: u64, stats: CleaningStats) -> Seq<char> {
    stat_line("changes_made: "@, changes_made)
        + stat_line("  hidden_chars_removed: "@, stats.hidden_chars_removed)
        + stat_line("  trailing_whitespace_removed: "@, stats.trailing_whitespace_removed)
        + stat_line("  spaces_normalized: "@, stats.spaces_normalized)
        + stat_line("  dashes_normalized: "@, stats.dashes_normalized)
        + stat_line("  quotes_normalized: "@, stats.quotes_normalized)
        + stat_line("  other_normalized: "@, stats.other_normalized)
        + stat_line("  control_chars_removed: "@, stats.control_chars_removed)
        + stat_line("  line_endings_normalized: "@, stats.line_endings_normalized)
        + stat_line("  non_keyboard_removed: "@, stats.non_keyboard_removed)
        + stat_line("  non_keyboard_transliterated: "@, stats.non_keyboard_transliterated)
        + stat_line("  emojis_dropped: "@, stats.emojis_dropped)
}

fn append_stat_line(out: &mut Vec<char>, label: &str, value: u64)
    ensures
        final(out)@ == old(out)@ + stat_line(label@, value),
{
    append_str(out, label);
    append_chars(out, &decimal_chars(value));
    out.push('\n');
}

/// The human-readable stats report the programs print to stderr.
pub fn stats_report(changes_made: u64, stats: &CleaningStats) -> (r: String)
    ensures
        r@ == stats_report_text(changes_made, *stats),
{
    let mut text: Vec<char> = Vec::new();
    append_stat_line(&mut text, "changes_made: ", changes_made);
    append_stat_line(&mut text, "  hidden_chars_removed: ", stats.hidden_chars_removed);
    append_stat_line(&mut text, "  trailing_whitespace_removed: ", stats.trailing_whitespace_removed);
    append_stat_line(&mut text, "  spaces_normalized: ", stats.spaces_normalized);
    append_stat_line(&mut text, "  dashes_normalized: ", stats.dashes_normalized);
    append_stat_line(&mut text, "  quotes_normalized: ", stats.quotes_normalized);
    append_stat_line(&mut text, "  other_normalized: ", stats.other_normalized);
    append_stat_line(&mut text, "  control_chars_removed: ", stats.control_chars_removed);
    append_stat_line(&mut text, "  line_endings_normalized: ", stats.line_endings_normalized);
    append_stat_line(&mut text, "  non_keyboard_removed: ", stats.non_keyboard_removed);
    append_stat_line(&mut text, "  non_keyboard_transliterated: ", stats.non_keyboard_transliterated);
    append_stat_line(&mut text, "  emojis_dropped: ", stats.emojis_dropped);
    string_from_chars(&text)
}

/// Parse a flexible boolean flag value: `true`/`t`/`1`/`yes`/`y`/`on` and
/// `false`/`f`/`0`/`no`/`n`/`off`, ignoring surrounding whitespace and ASCII case.
pub fn parse_bool_flag(value: &str) -> (r: Result<bool, String>)
    ensures
        match r {
            Ok(b) => bool_flag_value(value@) == Ok::<bool, Seq<char>>(b),
            Err(e) => bool_flag_value(value@) == Err::<bool, Seq<char>>(e@),
        },
{
    let raw = chars_of(value);
    let trimmed = trim_chars(&raw);
    let w = lower_ascii_chars(&trimmed);
    if chars_equal(&w, "true") || chars_equal(&w, "t") || chars_equal(&w, "1") || chars_equal(
        &w,
        "yes",
    ) || chars_equal(&w, "y") || chars_equal(&w, "on") {
        return Ok(true);
    }
    if chars_equal(&w, "false") || chars_equal(&w, "f") || chars_equal(&w, "0") || chars_equal(
        &w,
        "no",
    ) || chars_equal(&w, "n") || chars_equal(&w, "off") {
        return Ok(false);
    }
    let mut message = chars_of("invalid boolean value '");
    let ghost prefix = message@;
    let mut i: usize = 0;
    while i < w.len()
        invariant
            i <= w.len(),
            message@ == prefix + w@.take(i as int),
        decreases w.len() - i,
    {
        message.push(w[i]);
        i = i + 1;
        assert(message@ =~= prefix + w@.take(i as int));
    }
    assert(w@.take(w.len() as int) =~= w@);
    let quote = chars_of("'");
    proof {
        reveal_strlit("'");
    }
    message.push(quote[0]);
    assert(message@ =~= prefix + w@ + "'"@);
    Err(string_from_chars(&message))
}


/// The `rehuman` flags whose combinations are restricted, as given on one
/// command line (`input` is the positional input path).
#[derive(Clone, Copy, Debug, PartialEq, Eq, Structural)]
pub struct RehumanFlags {
    pub input: bool,
    pub save_config: bool,
    pub print_config: bool,
    pub reset_config: bool,
    pub stats: bool,
    pub stats_json: bool,
    pub exit_code: bool,
    pub stream: bool,
    pub inplace: bool,
    pub keep_emoji: bool,
    pub emoji_policy: bool,
}

impl Default for RehumanFlags {
    fn default() -> (r: Self)
        ensures
            !r.input,
            !r.save_config,
            !r.print_config,
            !r.reset_config,
            !r.stats,
            !r.stats_json,
            !r.exit_code,
            !r.stream,
            !r.inplace,
            !r.keep_emoji,
            !r.emoji_policy,
    {
        RehumanFlags {
            input: false,
            save_config: false,
            print_config: false,
            reset_config: false,
            stats: false,
            stats_json: false,
            exit_code: false,
            stream: false,
            inplace: false,
            keep_emoji: false,
            emoji_policy: false,
        }
    }
}

/// A restricted `rehuman` flag.
#[derive(Clone, Copy, Debug, PartialEq, Eq, Structural)]
pub enum RehumanFlag {
    Input,
    SaveConfig,
    PrintConfig,
    ResetConfig,
    Stats,
    StatsJson,
    ExitCode,
    Stream,
    Inplace,
    KeepEmoji,
    EmojiPolicy,
}

/// How a restricted flag is spelled on the command line.
pub open spec fn flag_spelling(f: RehumanFlag) -> Seq<char> {
    match f {
        RehumanFlag::Input => "[INPUT]"@,
        RehumanFlag::SaveConfig => "--save-config"@,
        RehumanFlag::PrintConfig => "--print-config"@,
        RehumanFlag::ResetConfig => "--reset-config"@,
        RehumanFlag::Stats => "--stats"@,
        RehumanFlag::StatsJson => "--stats-json"@,
        RehumanFlag::ExitCode => "--exit-code"@,
        RehumanFlag::Stream => "--stream"@,
        RehumanFlag::Inplace => "--inplace"@,
        RehumanFlag::KeepEmoji => "--keep-emoji"@,
        RehumanFlag::EmojiPolicy => "--emoji-policy"@,
    }
}

impl RehumanFlag {
    /// How the flag is spelled on the command line.
    pub fn spelling(&self) -> (r: &'static str)
        ensures
            r@ == flag_spelling(*self),
    {
        match self {
            RehumanFlag::Input => "[INPUT]",
            RehumanFlag::SaveConfig => "--save-config",
            RehumanFlag::PrintConfig => "--print-config",
            RehumanFlag::ResetConfig => "--reset-config",
            RehumanFlag::Stats => "--stats",
            RehumanFlag::StatsJson => "--stats-json",
            RehumanFlag::ExitCode => "--exit-code",
            RehumanFlag::Stream => "--stream",
            RehumanFlag::Inplace => "--inplace",
            RehumanFlag::KeepEmoji => "--keep-emoji",
            RehumanFlag::EmojiPolicy => "--emoji-policy",
        }
    }
}

/// Two flags that cannot be used together.
#[derive(Clone, Copy, Debug, PartialEq, Eq, Structural)]
pub struct FlagConflict {
    pub flag: RehumanFlag,
    pub other: RehumanFlag,
}

/// The message a flag conflict is reported with.
pub open spec fn conflict_message(c: FlagConflict) -> Seq<char> {
    "the argument '"@ + flag_spelling(c.flag) + "' cannot be used with '"@ + flag_spelling(c.other)
        + "'"@
}

impl FlagConflict {
    /// The message the conflict is reported with.
    pub fn message(&self) -> (r: String)
        ensures
            r@ == conflict_message(*self),
    {
        let mut text: Vec<char> = Vec::new();
        append_str(&mut text, "the argument '");
        append_str(&mut text, self.flag.spelling());
        append_str(&mut text, "' cannot be used with '");
        append_str(&mut text, self.other.spelling());
        append_str(&mut text, "'");
        string_from_chars(&text)
    }
}

/// The first conflict among the given flags: `--keep-emoji` with
/// `--emoji-policy`, `--stream` with `--inplace`, and `--print-config` with
/// any of `--save-config`, `--reset-config`, `--stats`, `--stats-json`,
/// `--exit-code`, `--stream`, `--inplace` or an input path.
pub open spec fn first_conflict(f: RehumanFlags) -> Option<FlagConflict> {
    if f.keep_emoji && f.emoji_policy {
        Some(FlagConflict { flag: RehumanFlag::KeepEmoji, other: RehumanFlag::EmojiPolicy })
    } else if f.stream && f.inplace {
        Some(FlagConflict { flag: RehumanFlag::Stream, other: RehumanFlag::Inplace })
    } else if f.print_config {
        if f.save_config {
            Some(FlagConflict { flag: RehumanFlag::PrintConfig, other: RehumanFlag::SaveConfig })
        } else if f.reset_config {
            Some(FlagConflict { flag: RehumanFlag::PrintConfig, other: RehumanFlag::ResetConfig })
        } else if f.stats {
            Some(FlagConflict { flag: RehumanFlag::PrintConfig, other: RehumanFlag::Stats })
        } else if f.stats_json {
            Some(FlagConflict { flag: RehumanFlag::PrintConfig, other: RehumanFlag::StatsJson })
        } else if f.exit_code {
            Some(FlagConflict { flag: RehumanFlag::PrintConfig, other: RehumanFlag::ExitCode })
        } else if f.stream {
            Some(FlagConflict { flag: RehumanFlag::PrintConfig, other: RehumanFlag::Stream })
        } else if f.inplace {
            Some(FlagConflict { flag: RehumanFlag::PrintConfig, other: RehumanFlag::Inplace })
        } else if f.input {
            Some(FlagConflict { flag: RehumanFlag::PrintConfig, other: RehumanFlag::Input })
        } else {
            None
        }
    } else {
        None
    }
}

/// Reject flag combinations that cannot be used together.
pub fn check_rehuman_flags(flags: &RehumanFlags) -> (r: Result<(), FlagConflict>)
    ensures
        r is Ok <==> first_conflict(*flags) is None,
        r matches Err(c) ==> first_conflict(*flags) == Some(c),
{
    if flags.keep_emoji && flags.emoji_policy {
        return Err(FlagConflict { flag: RehumanFlag::KeepEmoji, other: RehumanFlag::EmojiPolicy });
    }
    if flags.stream && flags.inplace {
        return Err(FlagConflict { flag: RehumanFlag::Stream, other: RehumanFlag::Inplace });
    }
    if flags.print_config {
        let other = if flags.save_config {
            Some(RehumanFlag::SaveConfig)
        } else if flags.reset_config {
            Some(RehumanFlag::ResetConfig)
        } else if flags.stats {
            Some(RehumanFlag::Stats)
        } else if flags.stats_json {
            Some(RehumanFlag::StatsJson)
        } else if flags.exit_code {
            Some(RehumanFlag::ExitCode)
        } else if flags.stream {
            Some(RehumanFlag::Stream)
        } else if flags.inplace {
            Some(RehumanFlag::Inplace)
        } else if flags.input {
            Some(RehumanFlag::Input)
        } else {
            None
        };
        if let Some(o) = other {
            return Err(FlagConflict { flag: RehumanFlag::PrintConfig, other: o });
        }
    }
    Ok(())
}


/// The options a CLI invocation resolves to: the config file's options (or
/// the defaults), replaced by the preset when one is named, with the explicit
/// flag overrides applied on top.
pub open spec fn resolved_options(config: Option<CleaningOptions>, cli: SharedCliOptions) -> CleaningOptions {
    let base = match cli.preset {
        Some(p) => preset_options(p),
        None => match config {
            Some(c) => c,
            None => default_options(),
        },
    };
    applied(partial_from_cli(cli), base)
}

/// The outcome of resolving a CLI invocation's options: the resolved options,
/// or the first keyboard-only dependency they violate.
pub open spec fn resolution(config: Option<CleaningOptions>, cli: SharedCliOptions) -> Result<CleaningOptions, CliError> {
    let o = resolved_options(config, cli);
    if (cli.keep_emoji || cli.emoji_policy is Some) && !o.keyboard_only {
        Err(CliError::KeyboardOnlyRequired { flag: DependentFlag::EmojiPolicy })
    } else if cli.non_ascii_policy is Some && !o.keyboard_only {
        Err(CliError::KeyboardOnlyRequired { flag: DependentFlag::NonAsciiPolicy })
    } else if cli.extended_keyboard is Some && !o.keyboard_only {
        Err(CliError::KeyboardOnlyRequired { flag: DependentFlag::ExtendedKeyboard })
    } else {
        Ok(o)
    }
}

/// Resolve the options of a CLI invocation from the loaded config (if any)
/// and the parsed flags, and validate the keyboard-only dependencies.
pub fn resolve_options(config: Option<CleaningOptions>, cli: &SharedCliOptions) -> (r: Result<CleaningOptions, CliError>)
    ensures
        r == resolution(config, *cli),
{
    let mut options = match config {
        Some(c) => c,
        None => default_cli_options(),
    };
    if let Some(preset) = cli.preset {
        options = options_from_preset(preset);
    }
    let overrides = cli.to_partial_options();
    overrides.apply_to(&mut options);
    validate_emoji_policy_dependency(&options, cli.emoji_policy_specified_by_user())?;
    validate_non_ascii_policy_dependency(&options, cli.non_ascii_policy_specified_by_user())?;
    validate_extended_keyboard_dependency(&options, cli.extended_keyboard_specified_by_user())?;
    Ok(options)
}

} // verus!
