//! The public cleaning API: [`TextCleaner`], the [`clean`] and [`humanize`]
//! helpers, and Unicode normalization of the input.

use vstd::prelude::*;
use std::borrow::Cow;
use crate::engine::{all_ascii, clean_core, clean_into_internal};
use crate::options::{
    default_options, humanize_options, CleaningOptions, UnicodeNormalizationMode,
};
use crate::sets::fast_path_safe;
use crate::stats::{bump, record, zero_stats, CleaningError, CleaningResult, CleaningStats, StatField};
use crate::lines::breaks_in_style;
use crate::accounting::stats_total;
use crate::text::{chars_of, nfc, nfc_of, nfd, nfd_of, nfkc, nfkc_of, nfkd, nfkd_of, string_from_chars};

verus! {

/// The input after the requested Unicode normalization.
pub open spec fn normalized_input(o: CleaningOptions, text: Seq<char>) -> Seq<char> {
    match o.unicode_normalization {
        UnicodeNormalizationMode::Disabled => text,
        UnicodeNormalizationMode::NFD => nfd_of(text),
        UnicodeNormalizationMode::NFC => nfc_of(text),
        UnicodeNormalizationMode::NFKD => nfkd_of(text),
        UnicodeNormalizationMode::NFKC => nfkc_of(text),
    }
}

/// Inputs that the options leave unchanged without running the pass: all
/// ASCII, with trimming, collapsing, line-ending normalization, control
/// removal and Unicode normalization off, and (in keyboard-only mode) only
/// printable ASCII, `\n`, `\r` and `\t`.
pub open spec fn ascii_fast_path(o: CleaningOptions, text: Seq<char>) -> bool {
    &&& all_ascii(text)
    &&& !o.remove_trailing_whitespace
    &&& !o.collapse_whitespace
    &&& o.normalize_line_endings is None
    &&& !o.remove_control_chars
    &&& o.unicode_normalization == UnicodeNormalizationMode::Disabled
    &&& (!o.keyboard_only || forall|i: int| 0 <= i < text.len() ==> fast_path_safe(#[trigger] text[i]))
}

/// The cleaned text, the number of changes and the stats for `text` under
/// `o`; `has_prior_output` says whether earlier chunks already emitted output.
/// A Unicode normalization that rewrites the input counts as one change,
/// billed to `other_normalized`.
pub open spec fn cleaned(o: CleaningOptions, text: Seq<char>, has_prior_output: bool) -> (Seq<char>, u64, CleaningStats) {
    if text.len() == 0 || ascii_fast_path(o, text) {
        (text, 0, zero_stats())
    } else {
        let w = normalized_input(o, text);
        let c = clean_core(o, w, has_prior_output);
        if w == text {
            c
        } else {
            (c.0, c.1.saturating_add(1), bump(c.2, StatField::OtherNormalized, 1))
        }
    }
}

/// A result carrying exactly the cleaned text, changes and stats `c`.
pub open spec fn describes<'a>(r: CleaningResult<'a>, c: (Seq<char>, u64, CleaningStats)) -> bool {
    r.text@ == c.0 && r.changes_made == c.1 && r.stats == c.2
}

/// Main cleaner.
pub struct TextCleaner {
    options: CleaningOptions,
}

impl View for TextCleaner {
    type V = CleaningOptions;

    closed spec fn view(&self) -> CleaningOptions {
        self.options
    }
}

/// Apply the requested Unicode normalization.
fn normalize_input(o: &CleaningOptions, text: Vec<char>) -> (r: Vec<char>)
    ensures
        r@ == normalized_input(*o, text@),
{
    match o.unicode_normalization {
        UnicodeNormalizationMode::Disabled => text,
        UnicodeNormalizationMode::NFD => nfd(&text),
        UnicodeNormalizationMode::NFC => nfc(&text),
        UnicodeNormalizationMode::NFKD => nfkd(&text),
        UnicodeNormalizationMode::NFKC => nfkc(&text),
    }
}

/// Whether `text` can be returned unchanged without running the pass.
fn can_use_ascii_fast_path(o: &CleaningOptions, text: &Vec<char>) -> (r: bool)
    ensures
        r == ascii_fast_path(*o, text@),
{
    if o.remove_trailing_whitespace || o.collapse_whitespace || o.normalize_line_endings.is_some()
        || o.remove_control_chars {
        return false;
    }
    match o.unicode_normalization {
        UnicodeNormalizationMode::Disabled => {},
        _ => {
            return false;
        },
    }
    let mut i: usize = 0;
    while i < text.len()
        invariant
            i <= text.len(),
            forall|j: int| 0 <= j < i ==> crate::sets::ascii_char(#[trigger] text@[j]),
            o.keyboard_only ==> forall|j: int| 0 <= j < i ==> fast_path_safe(#[trigger] text@[j]),
        decreases text.len() - i,
    {
        let c = text[i];
        if c > '\u{7F}' {
            return false;
        }
        if o.keyboard_only && !(c == '\n' || c == '\r' || c == '\t' || (' ' <= c && c <= '~')) {
            return false;
        }
        i = i + 1;
    }
    true
}

/// Clean a character sequence under `o`.
pub fn clean_chars(o: &CleaningOptions, text: Vec<char>, has_prior_output: bool) -> (r: (Vec<char>, u64, CleaningStats))
    ensures
        (r.0@, r.1, r.2) == cleaned(*o, text@, has_prior_output),
        o.normalize_line_endings matches Some(style) ==> breaks_in_style(style, r.0@),
        r.1 == 0 ==> r.0@ == text@,
        stats_total(r.2) + normalized_input(*o, text@).len() <= u64::MAX ==> r.1 as int
            == stats_total(r.2),
{
    if text.len() == 0 || can_use_ascii_fast_path(o, &text) {
        return (text, 0, CleaningStats::default());
    }
    let working = normalize_input(o, text.clone());
    let rewritten = !same_chars(&working, &text);
    let (out, mut changes, mut stats) = clean_into_internal(o, working, has_prior_output);
    if rewritten {
        proof {
            crate::accounting::lemma_bump_exact(changes, stats, StatField::OtherNormalized, 1);
        }
        record(&mut changes, &mut stats, StatField::OtherNormalized, 1);
    }
    (out, changes, stats)
}

/// Whether two character sequences are equal.
fn same_chars(a: &Vec<char>, b: &Vec<char>) -> (r: bool)
    ensures
        r == (a@ == b@),
{
    if a.len() != b.len() {
        return false;
    }
    let mut i: usize = 0;
    while i < a.len()
        invariant
            i <= a.len(),
            a.len() == b.len(),
            forall|j: int| 0 <= j < i ==> a@[j] == b@[j],
        decreases a.len() - i,
    {
        if a[i] != b[i] {
            return false;
        }
        i = i + 1;
    }
    assert(a@ =~= b@);
    true
}

impl TextCleaner {
    /// Create a cleaner from explicit options.
    pub fn new(options: CleaningOptions) -> (r: Self)
        ensures
            r@ == options,
    {
        TextCleaner { options }
    }

    /// Borrow the cleaner options.
    pub fn options(&self) -> (r: &CleaningOptions)
        ensures
            *r == self@,
    {
        &self.options
    }

    /// Clean text. Every mode of Unicode normalization is available, so this
    /// never fails.
    pub fn clean<'a>(&self, text: &'a str) -> (r: CleaningResult<'a>)
        ensures
            describes(r, cleaned(self@, text@, false)),
            (r.text matches Cow::Borrowed(_)) == (r.changes_made == 0),
            self@.normalize_line_endings matches Some(style) ==> breaks_in_style(style, r.text@),
            r.changes_made == 0 ==> r.text@ == text@,
            stats_total(r.stats) + normalized_input(self@, text@).len() <= u64::MAX
                ==> r.changes_made as int == stats_total(r.stats),
    {
        self.clean_with_context(text, false)
    }

    /// Clean text into a caller-provided buffer, which ends up holding the
    /// cleaned text.
    pub fn clean_into(&self, text: &str, out: &mut String) -> (r: CleaningResult<'static>)
        ensures
            describes(r, cleaned(self@, text@, false)),
            self@.normalize_line_endings matches Some(style) ==> breaks_in_style(style, r.text@),
            r.changes_made == 0 ==> r.text@ == text@,
            stats_total(r.stats) + normalized_input(self@, text@).len() <= u64::MAX
                ==> r.changes_made as int == stats_total(r.stats),
            final(out)@ == cleaned(self@, text@, false).0,
    {
        self.clean_into_with_context(text, out, false)
    }

    /// Fallible variant of [`TextCleaner::clean`]; it always succeeds.
    pub fn try_clean<'a>(&self, text: &'a str) -> (r: Result<CleaningResult<'a>, CleaningError>)
        ensures
            r matches Ok(res) && describes(res, cleaned(self@, text@, false)),
            r matches Ok(res) && ((res.text matches Cow::Borrowed(_)) == (res.changes_made == 0)),
            r matches Ok(res) && (self@.normalize_line_endings matches Some(style)
                ==> breaks_in_style(style, res.text@)),
            r matches Ok(res) && (res.changes_made == 0 ==> res.text@ == text@),
            r matches Ok(res) && (stats_total(res.stats) + normalized_input(self@, text@).len()
                <= u64::MAX ==> res.changes_made as int == stats_total(res.stats)),
    {
        Ok(self.clean_with_context(text, false))
    }

    /// Fallible variant of [`TextCleaner::clean_into`]; it always succeeds.
    pub fn try_clean_into(&self, text: &str, out: &mut String) -> (r: Result<CleaningResult<'static>, CleaningError>)
        ensures
            r matches Ok(res) && describes(res, cleaned(self@, text@, false)),
            r matches Ok(res) && (self@.normalize_line_endings matches Some(style)
                ==> breaks_in_style(style, res.text@)),
            r matches Ok(res) && (res.changes_made == 0 ==> res.text@ == text@),
            r matches Ok(res) && (stats_total(res.stats) + normalized_input(self@, text@).len()
                <= u64::MAX ==> res.changes_made as int == stats_total(res.stats)),
            final(out)@ == cleaned(self@, text@, false).0,
    {
        Ok(self.clean_into_with_context(text, out, false))
    }

    /// Clean text while preserving context about previously emitted output
    /// (whitespace left by dropped clusters at the start is only dropped when
    /// nothing was emitted before).
    pub fn try_clean_with_context<'a>(&self, text: &'a str, has_prior_output: bool) -> (r: Result<CleaningResult<'a>, CleaningError>)
        ensures
            r matches Ok(res) && describes(res, cleaned(self@, text@, has_prior_output)),
            r matches Ok(res) && ((res.text matches Cow::Borrowed(_)) == (res.changes_made == 0)),
            r matches Ok(res) && (self@.normalize_line_endings matches Some(style)
                ==> breaks_in_style(style, res.text@)),
            r matches Ok(res) && (res.changes_made == 0 ==> res.text@ == text@),
            r matches Ok(res) && (stats_total(res.stats) + normalized_input(self@, text@).len()
                <= u64::MAX ==> res.changes_made as int == stats_total(res.stats)),
    {
        Ok(self.clean_with_context(text, has_prior_output))
    }

    /// Buffer-reusing context-aware cleaner.
    pub fn try_clean_into_with_context(
        &self,
        text: &str,
        out: &mut String,
        has_prior_output: bool,
    ) -> (r: Result<CleaningResult<'static>, CleaningError>)
        ensures
            r matches Ok(res) && describes(res, cleaned(self@, text@, has_prior_output)),
            r matches Ok(res) && (self@.normalize_line_endings matches Some(style)
                ==> breaks_in_style(style, res.text@)),
            r matches Ok(res) && (res.changes_made == 0 ==> res.text@ == text@),
            r matches Ok(res) && (stats_total(res.stats) + normalized_input(self@, text@).len()
                <= u64::MAX ==> res.changes_made as int == stats_total(res.stats)),
            final(out)@ == cleaned(self@, text@, has_prior_output).0,
    {
        Ok(self.clean_into_with_context(text, out, has_prior_output))
    }

    fn clean_with_context<'a>(&self, text: &'a str, has_prior_output: bool) -> (r: CleaningResult<'a>)
        ensures
            describes(r, cleaned(self@, text@, has_prior_output)),
            self@.normalize_line_endings matches Some(style) ==> breaks_in_style(style, r.text@),
            r.changes_made == 0 ==> r.text@ == text@,
            stats_total(r.stats) + normalized_input(self@, text@).len() <= u64::MAX
                ==> r.changes_made as int == stats_total(r.stats),
            (r.text matches Cow::Borrowed(_)) == (r.changes_made == 0),
    {
        let chars = chars_of(text);
        if chars.len() == 0 || can_use_ascii_fast_path(&self.options, &chars) {
            return CleaningResult {
                text: Cow::Borrowed(text),
                changes_made: 0,
                stats: CleaningStats::default(),
            };
        }
        let (out, changes, stats) = clean_chars(&self.options, chars, has_prior_output);
        if changes == 0 {
            return CleaningResult { text: Cow::Borrowed(text), changes_made: 0, stats };
        }
        CleaningResult { text: Cow::Owned(string_from_chars(&out)), changes_made: changes, stats }
    }

    fn clean_into_with_context(&self, text: &str, out: &mut String, has_prior_output: bool) -> (r: CleaningResult<'static>)
        ensures
            describes(r, cleaned(self@, text@, has_prior_output)),
            self@.normalize_line_endings matches Some(style) ==> breaks_in_style(style, r.text@),
            r.changes_made == 0 ==> r.text@ == text@,
            stats_total(r.stats) + normalized_input(self@, text@).len() <= u64::MAX
                ==> r.changes_made as int == stats_total(r.stats),
            final(out)@ == cleaned(self@, text@, has_prior_output).0,
    {
        let chars = chars_of(text);
        let (cleaned_chars, changes, stats) = clean_chars(&self.options, chars, has_prior_output);
        *out = string_from_chars(&cleaned_chars);
        CleaningResult {
            text: Cow::Owned(string_from_chars(&cleaned_chars)),
            changes_made: changes,
            stats,
        }
    }
}

/// Clean with the default options: keyboard-safe output, emoji dropped,
/// non-ASCII folded or transliterated where possible.
pub fn clean(text: &str) -> (r: CleaningResult<'_>)
    ensures
        describes(r, cleaned(default_options(), text@, false)),
        r.changes_made == 0 ==> r.text@ == text@,
        stats_total(r.stats) + normalized_input(default_options(), text@).len() <= u64::MAX
            ==> r.changes_made as int == stats_total(r.stats),
{
    TextCleaner::new(CleaningOptions::default()).clean(text)
}

/// Clean with the humanize preset.
pub fn humanize(text: &str) -> (r: CleaningResult<'_>)
    ensures
        describes(r, cleaned(humanize_options(), text@, false)),
        r.changes_made == 0 ==> r.text@ == text@,
        stats_total(r.stats) + normalized_input(humanize_options(), text@).len() <= u64::MAX
            ==> r.changes_made as int == stats_total(r.stats),
{
    TextCleaner::new(CleaningOptions::humanize()).clean(text)
}

} // verus!
