//! What the option plumbing means: presets pinned to their documented
//! settings, config payloads and CLI overrides carried setting by setting,
//! and merged counters added up.

use vstd::prelude::*;
use crate::accounting::stats_total;
use crate::cli::{
    applied, no_overrides, options_to_serializable, serializable_to_options, EmojiPolicyArg, LineEndingChoice,
    NonAsciiPolicyArg, PartialOptions, SerializableOptions, UnicodeNormalizationChoice,
};
use crate::options::{
    aggressive_options, balanced_options, code_safe_options, default_options, humanize_options,
    minimal_options, CleaningOptions, EmojiPolicy, LineEndingStyle, NonAsciiPolicy,
    UnicodeNormalizationMode,
};
use crate::stats::{merged, zero_stats, CleaningStats};

verus! {

/// The CLI emoji value `a` and the library emoji policy `p` name the same
/// policy.
pub open spec fn same_emoji_policy(a: EmojiPolicyArg, p: EmojiPolicy) -> bool {
    (a == EmojiPolicyArg::Drop) == (p == EmojiPolicy::Drop)
}

/// The CLI non-ASCII value `a` and the library policy `p` name the same
/// policy.
pub open spec fn same_non_ascii_policy(a: NonAsciiPolicyArg, p: NonAsciiPolicy) -> bool {
    &&& (a == NonAsciiPolicyArg::Drop) == (p == NonAsciiPolicy::Drop)
    &&& (a == NonAsciiPolicyArg::Fold) == (p == NonAsciiPolicy::Fold)
}

/// The line-ending choice `c` and the library option `e` agree: `auto`
/// leaves line endings alone, each style enforces itself.
pub open spec fn same_line_endings(c: LineEndingChoice, e: Option<LineEndingStyle>) -> bool {
    &&& (c == LineEndingChoice::Auto) == (e is None)
    &&& (c == LineEndingChoice::Lf) == (e == Some(LineEndingStyle::Lf))
    &&& (c == LineEndingChoice::Crlf) == (e == Some(LineEndingStyle::Crlf))
}

/// The normalization choice `c` and the library mode `m` name the same form.
pub open spec fn same_normalization(c: UnicodeNormalizationChoice, m: UnicodeNormalizationMode) -> bool {
    &&& (c == UnicodeNormalizationChoice::Disabled) == (m == UnicodeNormalizationMode::Disabled)
    &&& (c == UnicodeNormalizationChoice::Nfd) == (m == UnicodeNormalizationMode::NFD)
    &&& (c == UnicodeNormalizationChoice::Nfc) == (m == UnicodeNormalizationMode::NFC)
    &&& (c == UnicodeNormalizationChoice::Nfkd) == (m == UnicodeNormalizationMode::NFKD)
}

/// The presets are the documented settings. Default: every typographic
/// normalization, hidden and control removal and trailing-whitespace trimming
/// on, keyboard-only output with emoji dropped and non-ASCII transliterated,
/// no collapsing, line-ending or Unicode normalization. Minimal: only hidden
/// characters removed. Balanced: the default without keyboard-only, with NFC.
/// Humanize: the default without keyboard-only, with whitespace collapsed and
/// NFKC. Aggressive: the default with whitespace collapsed, LF line endings,
/// NFKC and bidi stripping. Code-safe: no dash, quote or other
/// normalization, no keyboard-only, emoji kept, joiners preserved.
pub proof fn presets_are_the_documented_settings()
    ensures
        default_options() == (CleaningOptions {
            remove_hidden: true,
            remove_trailing_whitespace: true,
            normalize_spaces: true,
            normalize_dashes: true,
            normalize_quotes: true,
            normalize_other: true,
            keyboard_only: true,
            extended_keyboard: false,
            emoji_policy: EmojiPolicy::Drop,
            non_ascii_policy: NonAsciiPolicy::Transliterate,
            preserve_joiners: false,
            remove_control_chars: true,
            collapse_whitespace: false,
            normalize_line_endings: None,
            unicode_normalization: UnicodeNormalizationMode::Disabled,
            strip_bidi_controls: false,
        }),
        minimal_options() == (CleaningOptions {
            remove_hidden: true,
            remove_trailing_whitespace: false,
            normalize_spaces: false,
            normalize_dashes: false,
            normalize_quotes: false,
            normalize_other: false,
            keyboard_only: false,
            extended_keyboard: false,
            emoji_policy: EmojiPolicy::Drop,
            non_ascii_policy: NonAsciiPolicy::Transliterate,
            preserve_joiners: false,
            remove_control_chars: false,
            collapse_whitespace: false,
            normalize_line_endings: None,
            unicode_normalization: UnicodeNormalizationMode::Disabled,
            strip_bidi_controls: false,
        }),
        balanced_options() == (CleaningOptions {
            remove_hidden: true,
            remove_trailing_whitespace: true,
            normalize_spaces: true,
            normalize_dashes: true,
            normalize_quotes: true,
            normalize_other: true,
            keyboard_only: false,
            extended_keyboard: false,
            emoji_policy: EmojiPolicy::Drop,
            non_ascii_policy: NonAsciiPolicy::Transliterate,
            preserve_joiners: false,
            remove_control_chars: true,
            collapse_whitespace: false,
            normalize_line_endings: None,
            unicode_normalization: UnicodeNormalizationMode::NFC,
            strip_bidi_controls: false,
        }),
        humanize_options() == (CleaningOptions {
            remove_hidden: true,
            remove_trailing_whitespace: true,
            normalize_spaces: true,
            normalize_dashes: true,
            normalize_quotes: true,
            normalize_other: true,
            keyboard_only: false,
            extended_keyboard: false,
            emoji_policy: EmojiPolicy::Drop,
            non_ascii_policy: NonAsciiPolicy::Transliterate,
            preserve_joiners: false,
            remove_control_chars: true,
            collapse_whitespace: true,
            normalize_line_endings: None,
            unicode_normalization: UnicodeNormalizationMode::NFKC,
            strip_bidi_controls: false,
        }),
        aggressive_options() == (CleaningOptions {
            remove_hidden: true,
            remove_trailing_whitespace: true,
            normalize_spaces: true,
            normalize_dashes: true,
            normalize_quotes: true,
            normalize_other: true,
            keyboard_only: true,
            extended_keyboard: false,
            emoji_policy: EmojiPolicy::Drop,
            non_ascii_policy: NonAsciiPolicy::Transliterate,
            preserve_joiners: false,
            remove_control_chars: true,
            collapse_whitespace: true,
            normalize_line_endings: Some(LineEndingStyle::Lf),
            unicode_normalization: UnicodeNormalizationMode::NFKC,
            strip_bidi_controls: true,
        }),
        code_safe_options() == (CleaningOptions {
            remove_hidden: true,
            remove_trailing_whitespace: true,
            normalize_spaces: true,
            normalize_dashes: false,
            normalize_quotes: false,
            normalize_other: false,
            keyboard_only: false,
            extended_keyboard: false,
            emoji_policy: EmojiPolicy::Keep,
            non_ascii_policy: NonAsciiPolicy::Transliterate,
            preserve_joiners: true,
            remove_control_chars: true,
            collapse_whitespace: false,
            normalize_line_endings: None,
            unicode_normalization: UnicodeNormalizationMode::Disabled,
            strip_bidi_controls: false,
        }),
{
}

/// Reading a config payload takes every setting from its own field: each
/// flag is the payload's flag, each policy, line-ending and normalization
/// value names the same setting, and what the payload does not hold (bidi
/// stripping) takes its default.
pub proof fn config_payload_sets_each_option_from_its_own_field(s: SerializableOptions)
    ensures
        ({
            let r = serializable_to_options(s);
            &&& r.remove_hidden == s.remove_hidden
            &&& r.remove_trailing_whitespace == s.remove_trailing_whitespace
            &&& r.normalize_spaces == s.normalize_spaces
            &&& r.normalize_dashes == s.normalize_dashes
            &&& r.normalize_quotes == s.normalize_quotes
            &&& r.normalize_other == s.normalize_other
            &&& r.keyboard_only == s.keyboard_only
            &&& r.extended_keyboard == s.extended_keyboard
            &&& r.preserve_joiners == s.preserve_joiners
            &&& r.remove_control_chars == s.remove_control_chars
            &&& r.collapse_whitespace == s.collapse_whitespace
            &&& same_emoji_policy(s.emoji_policy, r.emoji_policy)
            &&& same_non_ascii_policy(s.non_ascii_policy, r.non_ascii_policy)
            &&& same_line_endings(s.line_endings, r.normalize_line_endings)
            &&& same_normalization(s.unicode_normalization, r.unicode_normalization)
            &&& !r.strip_bidi_controls
        }),
{
}

/// Saving options to a config payload records every setting in its own
/// field.
pub proof fn saved_config_records_each_option_in_its_own_field(o: CleaningOptions)
    ensures
        ({
            let s = options_to_serializable(o);
            &&& s.remove_hidden == o.remove_hidden
            &&& s.remove_trailing_whitespace == o.remove_trailing_whitespace
            &&& s.normalize_spaces == o.normalize_spaces
            &&& s.normalize_dashes == o.normalize_dashes
            &&& s.normalize_quotes == o.normalize_quotes
            &&& s.normalize_other == o.normalize_other
            &&& s.keyboard_only == o.keyboard_only
            &&& s.extended_keyboard == o.extended_keyboard
            &&& s.preserve_joiners == o.preserve_joiners
            &&& s.remove_control_chars == o.remove_control_chars
            &&& s.collapse_whitespace == o.collapse_whitespace
            &&& same_emoji_policy(s.emoji_policy, o.emoji_policy)
            &&& same_non_ascii_policy(s.non_ascii_policy, o.non_ascii_policy)
            &&& same_line_endings(s.line_endings, o.normalize_line_endings)
            &&& same_normalization(s.unicode_normalization, o.unicode_normalization)
        }),
{
}

/// An explicit override always wins: applying overrides `p` to options `o`
/// gives, for every setting, the override's value where `p` has one and
/// `o`'s value where it has none (bidi stripping, which has no override,
/// stays as in `o`).
pub proof fn explicit_overrides_win(p: PartialOptions, o: CleaningOptions)
    ensures
        ({
            let r = applied(p, o);
            &&& (p.remove_hidden matches Some(v) ==> r.remove_hidden == v)
            &&& (p.remove_hidden is None ==> r.remove_hidden == o.remove_hidden)
            &&& (p.remove_trailing_whitespace matches Some(v) ==> r.remove_trailing_whitespace == v)
            &&& (p.remove_trailing_whitespace is None ==> r.remove_trailing_whitespace
                == o.remove_trailing_whitespace)
            &&& (p.normalize_spaces matches Some(v) ==> r.normalize_spaces == v)
            &&& (p.normalize_spaces is None ==> r.normalize_spaces == o.normalize_spaces)
            &&& (p.normalize_dashes matches Some(v) ==> r.normalize_dashes == v)
            &&& (p.normalize_dashes is None ==> r.normalize_dashes == o.normalize_dashes)
            &&& (p.normalize_quotes matches Some(v) ==> r.normalize_quotes == v)
            &&& (p.normalize_quotes is None ==> r.normalize_quotes == o.normalize_quotes)
            &&& (p.normalize_other matches Some(v) ==> r.normalize_other == v)
            &&& (p.normalize_other is None ==> r.normalize_other == o.normalize_other)
            &&& (p.keyboard_only matches Some(v) ==> r.keyboard_only == v)
            &&& (p.keyboard_only is None ==> r.keyboard_only == o.keyboard_only)
            &&& (p.extended_keyboard matches Some(v) ==> r.extended_keyboard == v)
            &&& (p.extended_keyboard is None ==> r.extended_keyboard == o.extended_keyboard)
            &&& (p.preserve_joiners matches Some(v) ==> r.preserve_joiners == v)
            &&& (p.preserve_joiners is None ==> r.preserve_joiners == o.preserve_joiners)
            &&& (p.remove_control_chars matches Some(v) ==> r.remove_control_chars == v)
            &&& (p.remove_control_chars is None ==> r.remove_control_chars == o.remove_control_chars)
            &&& (p.collapse_whitespace matches Some(v) ==> r.collapse_whitespace == v)
            &&& (p.collapse_whitespace is None ==> r.collapse_whitespace == o.collapse_whitespace)
            &&& (p.emoji_policy matches Some(a) ==> same_emoji_policy(a, r.emoji_policy))
            &&& (p.emoji_policy is None ==> r.emoji_policy == o.emoji_policy)
            &&& (p.non_ascii_policy matches Some(a) ==> same_non_ascii_policy(a, r.non_ascii_policy))
            &&& (p.non_ascii_policy is None ==> r.non_ascii_policy == o.non_ascii_policy)
            &&& (p.line_endings matches Some(c) ==> same_line_endings(c, r.normalize_line_endings))
            &&& (p.line_endings is None ==> r.normalize_line_endings == o.normalize_line_endings)
            &&& (p.unicode_normalization matches Some(c) ==> same_normalization(
                c,
                r.unicode_normalization,
            ))
            &&& (p.unicode_normalization is None ==> r.unicode_normalization
                == o.unicode_normalization)
            &&& r.strip_bidi_controls == o.strip_bidi_controls
        }),
{
}

/// `x + y`, or `u64::MAX` when the sum does not fit.
pub open spec fn capped_sum(x: u64, y: u64) -> int {
    if x + y <= u64::MAX {
        x + y
    } else {
        u64::MAX as int
    }
}

/// Merging counters adds them up: every counter of the merge is the sum of
/// the two counters (held at `u64::MAX` if it would overflow), so when
/// nothing overflows the merged total is the sum of the two totals.
pub proof fn merging_adds_every_counter(a: CleaningStats, b: CleaningStats)
    ensures
        ({
            let m = merged(a, b);
            &&& m.hidden_chars_removed == capped_sum(a.hidden_chars_removed, b.hidden_chars_removed)
            &&& m.trailing_whitespace_removed == capped_sum(
                a.trailing_whitespace_removed,
                b.trailing_whitespace_removed,
            )
            &&& m.spaces_normalized == capped_sum(a.spaces_normalized, b.spaces_normalized)
            &&& m.dashes_normalized == capped_sum(a.dashes_normalized, b.dashes_normalized)
            &&& m.quotes_normalized == capped_sum(a.quotes_normalized, b.quotes_normalized)
            &&& m.other_normalized == capped_sum(a.other_normalized, b.other_normalized)
            &&& m.control_chars_removed == capped_sum(a.control_chars_removed, b.control_chars_removed)
            &&& m.line_endings_normalized == capped_sum(
                a.line_endings_normalized,
                b.line_endings_normalized,
            )
            &&& m.non_keyboard_removed == capped_sum(a.non_keyboard_removed, b.non_keyboard_removed)
            &&& m.non_keyboard_transliterated == capped_sum(
                a.non_keyboard_transliterated,
                b.non_keyboard_transliterated,
            )
            &&& m.emojis_dropped == capped_sum(a.emojis_dropped, b.emojis_dropped)
        }),
        stats_total(a) + stats_total(b) <= u64::MAX ==> stats_total(merged(a, b)) == stats_total(a)
            + stats_total(b),
{
}

/// Fresh counters are all zero.
pub proof fn fresh_counters_are_zero()
    ensures
        zero_stats() == (CleaningStats {
            hidden_chars_removed: 0,
            trailing_whitespace_removed: 0,
            spaces_normalized: 0,
            dashes_normalized: 0,
            quotes_normalized: 0,
            other_normalized: 0,
            control_chars_removed: 0,
            line_endings_normalized: 0,
            non_keyboard_removed: 0,
            non_keyboard_transliterated: 0,
            emojis_dropped: 0,
        }),
        stats_total(zero_stats()) == 0,
{
}

/// Applying no override at all leaves the options as they are.
pub proof fn no_override_changes_nothing(o: CleaningOptions)
    ensures
        applied(no_overrides(), o) == o,
{
}

} // verus!
