//! Properties of the library as a whole, proved over the specifications
//! that the public functions' contracts use.

use vstd::prelude::*;
use crate::cleaner::{ascii_fast_path, cleaned};
use crate::cli::{
    config_options, emoji_arg_of, emoji_policy_of, line_ending_choice, line_ending_option,
    non_ascii_arg_of, non_ascii_policy_of, normalization_choice_of, normalization_mode_of,
    options_to_serializable, serializable_to_options, ConfigFile, EmojiPolicyArg,
    LineEndingChoice, NonAsciiPolicyArg, SerializableOptions, UnicodeNormalizationChoice,
    CONFIG_VERSION,
};
use crate::engine::{
    break_line, clean_core, emit, finish_cluster, finish_text, fold_steps, initial_state, map_char,
    pass_result, rec, rec_if, scan_char, scan_chars, step, ClusterScan, ScanState, flush_ws,
    ws_text, whitespace_only, lemma_step_ws, emoji_cluster, newline_grapheme, separator_grapheme,
};
use crate::lines::{restamped, stamp_piece};
use crate::options::{
    default_options, CleaningOptions, EmojiPolicy, LineEndingStyle, NonAsciiPolicy, UnicodeNormalizationMode,
};
use crate::rewrite::{
    ascii_mapping_text, fold_piece, folded_text, mapped_piece, mapping_text, removed_pred,
    replacement, rewrite_piece, rewritten, transliterated_pred, transliterated_text,
};
use crate::sets::{default_ignorable, keyboard_allowed};
use crate::stats::{bump, zero_stats, CleaningStats, StatField};
use crate::tables::{dash_char, quote_target, space_separator};
use crate::text::grapheme_clusters;
use crate::util::{count_where, expand, lemma_expand_all};

verus! {

/// Every character of `s` is kept by keyboard-only output.
pub open spec fn keyboard_text(s: Seq<char>, ext: bool) -> bool {
    forall|i: int| 0 <= i < s.len() ==> keyboard_allowed(#[trigger] s[i], ext)
}

/// The keyboard predicate as a function.
pub open spec fn allowed_pred(ext: bool) -> spec_fn(char) -> bool {
    |c: char| keyboard_allowed(c, ext)
}

proof fn lemma_concat_keyboard(a: Seq<char>, b: Seq<char>, ext: bool)
    requires
        keyboard_text(a, ext),
        keyboard_text(b, ext),
    ensures
        keyboard_text(a + b, ext),
{
    assert forall|i: int| 0 <= i < (a + b).len() implies keyboard_allowed(#[trigger] (a + b)[i], ext) by {
        if i < a.len() {
            assert((a + b)[i] == a[i]);
        } else {
            assert((a + b)[i] == b[i - a.len()]);
        }
    }
}

proof fn lemma_ws_keyboard(p: Seq<char>, collapse: bool, ext: bool)
    requires
        whitespace_only(p),
    ensures
        keyboard_text(ws_text(p, collapse), ext),
{
}

proof fn lemma_flush_keyboard(o: CleaningOptions, st: ScanState)
    requires
        keyboard_text(st.out, o.extended_keyboard),
        whitespace_only(st.pending),
    ensures
        keyboard_text(flush_ws(o, st).out, o.extended_keyboard),
{
    lemma_ws_keyboard(st.pending, o.collapse_whitespace, o.extended_keyboard);
    lemma_concat_keyboard(
        st.out,
        ws_text(st.pending, o.collapse_whitespace),
        o.extended_keyboard,
    );
}

proof fn lemma_expand_keyboard(s: Seq<char>, f: spec_fn(char) -> Seq<char>, ext: bool)
    requires
        forall|c: char| keyboard_text(#[trigger] f(c), ext),
    ensures
        keyboard_text(expand(s, f), ext),
{
    assert forall|c: char, j: int| 0 <= j < f(c).len() implies (allowed_pred(ext))(
        #[trigger] f(c)[j],
    ) by {
        assert(keyboard_text(f(c), ext));
    }
    lemma_expand_all(s, f, allowed_pred(ext));
}

proof fn lemma_mapping_keyboard(m: Seq<char>, ext: bool)
    ensures
        keyboard_text(ascii_mapping_text(m, ext), ext),
{
    assert forall|c: char| keyboard_text(#[trigger] mapped_piece(ext)(c), ext) by {}
    lemma_expand_keyboard(m, mapped_piece(ext), ext);
}

/// Everything a keyboard-only rewrite emits is keyboard-safe.
proof fn lemma_rewrite_keyboard(p: NonAsciiPolicy, ext: bool, cl: Seq<char>)
    ensures
        keyboard_text(rewritten(p, ext, cl), ext),
{
    assert forall|c: char| keyboard_text(#[trigger] rewrite_piece(p, ext)(c), ext) by {
        if !keyboard_allowed(c, ext) {
            let a = crate::rewrite::compat_override_text(c);
            match a {
                Some(t) => lemma_mapping_keyboard(t@, ext),
                None => {},
            }
            assert(keyboard_text(mapping_text(a, ext), ext));
            assert forall|d: char| keyboard_text(#[trigger] fold_piece(c, ext)(d), ext) by {}
            lemma_expand_keyboard(crate::text::nfkd_of(seq![c]), fold_piece(c, ext), ext);
            assert(keyboard_text(folded_text(c, ext), ext));
            match crate::rewrite::curated_mapping(c) {
                Some(m) => lemma_mapping_keyboard(m@, ext),
                None => {
                    match crate::text::deunicode_of(c) {
                        Some(t) => lemma_mapping_keyboard(crate::rewrite::trim_ws(t), ext),
                        None => {},
                    }
                },
            }
            assert(keyboard_text(transliterated_text(c, ext), ext));
            assert(keyboard_text(replacement(p, ext, c), ext));
        }
    }
    lemma_expand_keyboard(cl, rewrite_piece(p, ext), ext);
}

/// Keyboard-only mode with emoji dropped: the state's output stays keyboard-safe.
pub open spec fn keyboard_mode(o: CleaningOptions) -> bool {
    o.keyboard_only && o.emoji_policy == EmojiPolicy::Drop
}

proof fn lemma_emit_keyboard(o: CleaningOptions, st: ScanState, text: Seq<char>)
    requires
        keyboard_text(st.out, o.extended_keyboard),
        keyboard_text(text, o.extended_keyboard),
        whitespace_only(st.pending),
    ensures
        keyboard_text(emit(o, st, text).out, o.extended_keyboard),
{
    lemma_flush_keyboard(o, st);
    let st1 = if st.pending.len() > 0 && !(st.drop_leading && !st.emitted) {
        flush_ws(o, st)
    } else {
        st
    };
    lemma_concat_keyboard(st1.out, text, o.extended_keyboard);
}

proof fn lemma_scan_chars_keyboard(o: CleaningOptions, em: bool, acc: ClusterScan, g: Seq<char>, i: int)
    requires
        keyboard_text(acc.st.out, o.extended_keyboard),
        whitespace_only(acc.st.pending),
    ensures
        keyboard_text(scan_chars(o, em, acc, g, i).st.out, o.extended_keyboard),
    decreases g.len() - i,
{
    if !(i >= g.len() || i < 0 || acc.direct) {
        let next = scan_char(o, em, acc, g[i]);
        let (st3, c3) = crate::engine::map_char(o, acc.st, g[i]);
        assert(st3.out == acc.st.out);
        assert(st3.pending == acc.st.pending);
        lemma_emit_keyboard(o, st3, seq!['.', '.', '.']);
        assert(keyboard_text(next.st.out, o.extended_keyboard));
        lemma_scan_chars_keyboard(o, em, next, g, i + 1);
    }
}

proof fn lemma_step_keyboard(o: CleaningOptions, st: ScanState, g: Seq<char>)
    requires
        keyboard_mode(o),
        keyboard_text(st.out, o.extended_keyboard),
        whitespace_only(st.pending),
    ensures
        keyboard_text(step(o, st, g).out, o.extended_keyboard),
{
    let ext = o.extended_keyboard;
    lemma_flush_keyboard(o, st);
    let b = break_line(o, st);
    assert(keyboard_text(b.out, ext));
    if g.len() == 0 {
    } else if crate::engine::newline_grapheme(g) {
        lemma_concat_keyboard(b.out, g, ext);
    } else if o.normalize_spaces && o.normalize_line_endings is None
        && crate::engine::separator_grapheme(g) {
        lemma_concat_keyboard(b.out, seq!['\n'], ext);
    } else {
        let em = crate::engine::emoji_cluster(o, g);
        let acc0 = ClusterScan { st, cluster: Seq::empty(), hidden_here: 0, direct: false };
        let acc = scan_chars(o, em, acc0, g, 0);
        lemma_scan_chars_keyboard(o, em, acc0, g, 0);
        crate::engine::lemma_scan_chars_ws(o, em, acc0, g, 0);
        lemma_rewrite_keyboard(o.non_ascii_policy, ext, acc.cluster);
        let p = o.non_ascii_policy;
        let st1 = rec_if(
            acc.st,
            crate::stats::StatField::NonKeyboardTransliterated,
            crate::util::count_where(acc.cluster, crate::rewrite::transliterated_pred(p, ext)),
        );
        let st2 = rec_if(
            st1,
            crate::stats::StatField::NonKeyboardRemoved,
            crate::util::count_where(acc.cluster, crate::rewrite::removed_pred(p, ext)),
        );
        lemma_emit_keyboard(o, st2, rewritten(p, ext, acc.cluster));
    }
}

proof fn lemma_fold_keyboard(o: CleaningOptions, gs: Seq<Seq<char>>, st: ScanState, i: int)
    requires
        keyboard_mode(o),
        keyboard_text(st.out, o.extended_keyboard),
        whitespace_only(st.pending),
    ensures
        keyboard_text(fold_steps(o, gs, st, i).out, o.extended_keyboard),
        whitespace_only(fold_steps(o, gs, st, i).pending),
    decreases gs.len() - i,
{
    if !(i >= gs.len() || i < 0) {
        lemma_step_keyboard(o, st, gs[i]);
        lemma_step_ws(o, st, gs[i]);
        lemma_fold_keyboard(o, gs, step(o, st, gs[i]), i + 1);
    }
}

/// Keyboard-only output: with `keyboard_only` on and emoji dropped, every
/// character of the cleaned text is a keyboard character (printable ASCII,
/// `\n`, `\r`, `\t`), or one of the curated extended-keyboard characters when
/// `extended_keyboard` is on, whatever the input and the other options.
pub proof fn keyboard_only_output_is_keyboard_safe(o: CleaningOptions, text: Seq<char>, has_prior_output: bool)
    requires
        o.keyboard_only,
        o.emoji_policy == EmojiPolicy::Drop,
    ensures
        keyboard_text(cleaned(o, text, has_prior_output).0, o.extended_keyboard),
{
    let ext = o.extended_keyboard;
    if text.len() == 0 || ascii_fast_path(o, text) {
        assert forall|i: int| 0 <= i < text.len() implies keyboard_allowed(#[trigger] text[i], ext) by {
            assert(crate::sets::fast_path_safe(text[i]));
        }
    } else {
        let working = crate::cleaner::normalized_input(o, text);
        let input = crate::engine::pass_input(o, working);
        let gs = grapheme_clusters(input);
        let init = initial_state(has_prior_output);
        lemma_fold_keyboard(o, gs, init, 0);
        let folded = fold_steps(o, gs, init, 0);
        lemma_flush_keyboard(o, folded);
        let st = pass_result(o, working, has_prior_output);
        assert(st == finish_text(o, folded));
        assert(keyboard_text(st.out, ext));
        match o.normalize_line_endings {
            Some(LineEndingStyle::Lf) => {},
            Some(style) => {
                lemma_restamp_keyboard(style, st.out, ext);
            },
            None => {},
        }
    }
}

proof fn lemma_restamp_keyboard(style: LineEndingStyle, s: Seq<char>, ext: bool)
    requires
        keyboard_text(s, ext),
    ensures
        keyboard_text(restamped(style, s), ext),
    decreases s.len(),
{
    if s.len() > 0 {
        let init = s.drop_last();
        assert(keyboard_text(init, ext)) by {
            assert forall|i: int| 0 <= i < init.len() implies keyboard_allowed(#[trigger] init[i], ext) by {
                assert(init[i] == s[i]);
            }
        }
        lemma_restamp_keyboard(style, init, ext);
        let c = s.last();
        assert(keyboard_allowed(c, ext));
        let piece = stamp_piece(style)(c);
        assert(keyboard_text(piece, ext));
        lemma_concat_keyboard(restamped(style, init), piece, ext);
    }
}


/// Saving options to the config schema and reading them back gives the same
/// options. (`strip_bidi_controls` is not part of the schema in this build,
/// so the law is stated for options that leave it off.)
pub proof fn config_round_trip_preserves_options(o: CleaningOptions)
    requires
        !o.strip_bidi_controls,
    ensures
        serializable_to_options(options_to_serializable(o)) == o,
        config_options(ConfigFile { version: CONFIG_VERSION, options: options_to_serializable(o) })
            == Ok::<CleaningOptions, crate::cli::CliError>(o),
{
    match o.normalize_line_endings {
        Some(LineEndingStyle::Lf) => {},
        Some(LineEndingStyle::Crlf) => {},
        Some(LineEndingStyle::Cr) => {},
        None => {},
    }
    match o.unicode_normalization {
        UnicodeNormalizationMode::Disabled => {},
        _ => {},
    }
}

/// Reading a config payload and saving it again gives the same payload.
pub proof fn config_payload_round_trip(s: SerializableOptions)
    ensures
        options_to_serializable(serializable_to_options(s)) == s,
{
    match s.line_endings {
        LineEndingChoice::Auto => {},
        _ => {},
    }
    match s.unicode_normalization {
        UnicodeNormalizationChoice::Disabled => {},
        _ => {},
    }
}

/// The CLI values and the library values of the emoji policy, the non-ASCII
/// policy, the line-ending option and the normalization mode convert into
/// each other without loss, in both directions.
pub proof fn cli_values_round_trip(
    e: EmojiPolicy,
    ea: EmojiPolicyArg,
    n: NonAsciiPolicy,
    na: NonAsciiPolicyArg,
    l: Option<LineEndingStyle>,
    lc: LineEndingChoice,
    m: UnicodeNormalizationMode,
    mc: UnicodeNormalizationChoice,
)
    ensures
        emoji_policy_of(emoji_arg_of(e)) == e,
        emoji_arg_of(emoji_policy_of(ea)) == ea,
        non_ascii_policy_of(non_ascii_arg_of(n)) == n,
        non_ascii_arg_of(non_ascii_policy_of(na)) == na,
        line_ending_option(line_ending_choice(l)) == l,
        line_ending_choice(line_ending_option(lc)) == lc,
        normalization_mode_of(normalization_choice_of(m)) == m,
        normalization_choice_of(normalization_mode_of(mc)) == mc,
{
    match l {
        Some(LineEndingStyle::Lf) => {},
        Some(LineEndingStyle::Crlf) => {},
        Some(LineEndingStyle::Cr) => {},
        None => {},
    }
}

/// The change total is zero exactly when every counter is.
pub open spec fn counted(st: ScanState) -> bool {
    (st.changes == 0) == (st.stats == zero_stats())
}

proof fn lemma_rec_counted(st: ScanState, f: StatField, amount: u64)
    requires
        counted(st),
    ensures
        counted(rec(st, f, amount)),
{
    if amount > 0 {
        assert(rec(st, f, amount).changes >= 1);
        match f {
            StatField::HiddenCharsRemoved => {},
            StatField::TrailingWhitespaceRemoved => {},
            StatField::SpacesNormalized => {},
            StatField::DashesNormalized => {},
            StatField::QuotesNormalized => {},
            StatField::OtherNormalized => {},
            StatField::ControlCharsRemoved => {},
            StatField::LineEndingsNormalized => {},
            StatField::NonKeyboardRemoved => {},
            StatField::NonKeyboardTransliterated => {},
            StatField::EmojisDropped => {},
        }
    } else {
        assert(rec(st, f, amount).stats == st.stats);
    }
}

proof fn lemma_map_char_counted(o: CleaningOptions, st: ScanState, c0: char)
    requires
        counted(st),
    ensures
        counted(map_char(o, st, c0).0),
{
    let spaced = o.normalize_spaces && space_separator(c0);
    let c1 = if spaced { ' ' } else { c0 };
    lemma_rec_counted(st, StatField::SpacesNormalized, 1);
    let st1 = if spaced { rec(st, StatField::SpacesNormalized, 1) } else { st };
    lemma_rec_counted(st1, StatField::DashesNormalized, 1);
    let st2 = if o.normalize_dashes && dash_char(c1) && '-' != c1 {
        rec(st1, StatField::DashesNormalized, 1)
    } else {
        st1
    };
    lemma_rec_counted(st2, StatField::QuotesNormalized, 1);
}

proof fn lemma_flush_counted(o: CleaningOptions, st: ScanState)
    requires
        counted(st),
    ensures
        counted(flush_ws(o, st)),
{
    let st1 = ScanState { out: st.out + ws_text(st.pending, o.collapse_whitespace), ..st };
    lemma_rec_counted(st1, StatField::SpacesNormalized, 1);
}

proof fn lemma_emit_counted(o: CleaningOptions, st: ScanState, text: Seq<char>)
    requires
        counted(st),
    ensures
        counted(emit(o, st, text)),
{
    lemma_flush_counted(o, st);
}

proof fn lemma_scan_chars_counted(o: CleaningOptions, em: bool, acc: ClusterScan, g: Seq<char>, i: int)
    requires
        counted(acc.st),
    ensures
        counted(scan_chars(o, em, acc, g, i).st),
    decreases g.len() - i,
{
    if !(i >= g.len() || i < 0 || acc.direct) {
        let c0 = g[i];
        let st = acc.st;
        lemma_rec_counted(st, StatField::HiddenCharsRemoved, 1);
        lemma_rec_counted(st, StatField::ControlCharsRemoved, 1);
        lemma_map_char_counted(o, st, c0);
        let st3 = map_char(o, st, c0).0;
        lemma_rec_counted(st3, StatField::OtherNormalized, 1);
        lemma_emit_counted(o, st3, seq!['.', '.', '.']);
        lemma_rec_counted(emit(o, st3, seq!['.', '.', '.']), StatField::OtherNormalized, 1);
        lemma_scan_chars_counted(o, em, scan_char(o, em, acc, c0), g, i + 1);
    }
}

proof fn lemma_step_counted(o: CleaningOptions, st: ScanState, g: Seq<char>)
    requires
        counted(st),
    ensures
        counted(step(o, st, g)),
{
    lemma_rec_counted(st, StatField::TrailingWhitespaceRemoved, st.pending.len() as u64);
    lemma_flush_counted(o, st);
    let b = break_line(o, st);
    assert(counted(b));
    lemma_rec_counted(b, StatField::SpacesNormalized, 1);
    if g.len() > 0 && !crate::engine::newline_grapheme(g) && !(o.normalize_spaces
        && o.normalize_line_endings is None && crate::engine::separator_grapheme(g)) {
        let em = crate::engine::emoji_cluster(o, g);
        let acc0 = ClusterScan { st, cluster: Seq::empty(), hidden_here: 0, direct: false };
        lemma_scan_chars_counted(o, em, acc0, g, 0);
        let acc = scan_chars(o, em, acc0, g, 0);
        let a = acc.st;
        let cl = acc.cluster;
        let p = o.non_ascii_policy;
        let ext = o.extended_keyboard;
        let n1 = count_where(cl, transliterated_pred(p, ext));
        let n2 = count_where(cl, removed_pred(p, ext));
        let n3 = count_where(cl, crate::engine::non_keyboard(ext));
        if n1 > 0 {
            lemma_rec_counted(a, StatField::NonKeyboardTransliterated, n1 as u64);
        }
        let s1 = rec_if(a, StatField::NonKeyboardTransliterated, n1);
        if n2 > 0 {
            lemma_rec_counted(s1, StatField::NonKeyboardRemoved, n2 as u64);
        }
        let s2 = rec_if(s1, StatField::NonKeyboardRemoved, n2);
        lemma_emit_counted(o, a, cl);
        lemma_emit_counted(o, s2, rewritten(p, ext, cl));
        if n3 > 0 {
            lemma_rec_counted(a, StatField::NonKeyboardRemoved, n3 as u64);
        }
        let hh = acc.hidden_here;
        let e1 = if hh > 0 {
            ScanState {
                changes: a.changes.saturating_sub(hh),
                stats: CleaningStats {
                    hidden_chars_removed: a.stats.hidden_chars_removed.saturating_sub(hh),
                    ..a.stats
                },
                ..a
            }
        } else {
            a
        };
        assert(rec(e1, StatField::EmojisDropped, 1).changes >= 1);
        assert(rec(e1, StatField::EmojisDropped, 1).stats.emojis_dropped >= 1);
        assert(counted(finish_cluster(o, em, acc)));
    }
}

proof fn lemma_fold_counted(o: CleaningOptions, gs: Seq<Seq<char>>, st: ScanState, i: int)
    requires
        counted(st),
    ensures
        counted(fold_steps(o, gs, st, i)),
    decreases gs.len() - i,
{
    if !(i >= gs.len() || i < 0) {
        lemma_step_counted(o, st, gs[i]);
        lemma_fold_counted(o, gs, step(o, st, gs[i]), i + 1);
    }
}

/// No change is reported exactly when every per-kind counter is zero: a
/// cleaning result's `changes_made` is `0` if and only if its `stats` are all
/// zero, whatever the options and the input.
pub proof fn no_changes_iff_no_counters(o: CleaningOptions, text: Seq<char>, has_prior_output: bool)
    ensures
        (cleaned(o, text, has_prior_output).1 == 0) == (cleaned(o, text, has_prior_output).2
            == zero_stats()),
{
    if !(text.len() == 0 || ascii_fast_path(o, text)) {
        let working = crate::cleaner::normalized_input(o, text);
        let gs = grapheme_clusters(crate::engine::pass_input(o, working));
        let init = initial_state(has_prior_output);
        lemma_fold_counted(o, gs, init, 0);
        let folded = fold_steps(o, gs, init, 0);
        lemma_rec_counted(folded, StatField::TrailingWhitespaceRemoved, folded.pending.len() as u64);
        lemma_flush_counted(o, folded);
        let st = pass_result(o, working, has_prior_output);
        assert(counted(st));
        let tally = crate::lines::lf_tally(working);
        let total = crate::lines::tally_total(tally);
        if total > 0 {
            lemma_rec_counted(st, StatField::LineEndingsNormalized, total as u64);
        }
        match o.normalize_line_endings {
            Some(LineEndingStyle::Lf) => {},
            Some(style) => {
                let baseline = if style == LineEndingStyle::Crlf {
                    tally.crlf
                } else {
                    tally.cr
                };
                let net = (crate::lines::restamp_count(style, st.out) as u64).saturating_sub(
                    baseline as u64,
                );
                lemma_rec_counted(st, StatField::LineEndingsNormalized, net);
            },
            None => {},
        }
        let c = clean_core(o, working, has_prior_output);
        assert((c.1 == 0) == (c.2 == zero_stats()));
        assert(bump(c.2, StatField::OtherNormalized, 1).other_normalized >= 1);
    }
}

/// Typographic marks become ASCII: with spaces, dashes and quotes normalized,
/// a one-character cluster holding a Unicode space separator is scanned to a
/// single space, one holding a dash to `-`, and one holding any other
/// quotation mark, apostrophe or prime to `"` or `'` (unless it is a hidden
/// character that hidden-character removal takes out).
pub proof fn typographic_marks_scan_to_ascii(o: CleaningOptions, em: bool, st: ScanState, c: char)
    requires
        o.normalize_spaces,
        o.normalize_dashes,
        o.normalize_quotes,
        !(o.remove_hidden && crate::sets::default_ignorable(c)),
    ensures
        ({
            let r = scan_chars(
                o,
                em,
                ClusterScan { st, cluster: Seq::empty(), hidden_here: 0, direct: false },
                seq![c],
                0,
            );
            &&& space_separator(c) ==> r.cluster == seq![' ']
            &&& dash_char(c) ==> r.cluster == seq!['-']
            &&& (quote_target(c) is Some && !space_separator(c) && !dash_char(c)) ==> (r.cluster
                == seq!['"'] || r.cluster == seq!['\''])
        }),
{
    let acc = ClusterScan { st, cluster: Seq::empty(), hidden_here: 0, direct: false };
    assert(!dash_char(' '));
    assert(quote_target(' ') is None);
    assert(quote_target('-') is None);
    assert(space_separator(c) || dash_char(c) || quote_target(c) is Some ==> !crate::sets::disallowed_control(c));
    let next = scan_char(o, em, acc, c);
    assert(scan_chars(o, em, next, seq![c], 1) == next);
    assert(Seq::<char>::empty().push(' ') =~= seq![' ']);
    assert(Seq::<char>::empty().push('-') =~= seq!['-']);
    assert(Seq::<char>::empty().push('"') =~= seq!['"']);
    assert(Seq::<char>::empty().push('\'') =~= seq!['\'']);
}

/// The ASCII character the default cleaner turns a typographic mark into: a
/// space for a space separator, `-` for a dash, the quote target for a
/// quotation mark.
pub open spec fn ascii_mark(c: char) -> char {
    if space_separator(c) {
        ' '
    } else if dash_char(c) {
        '-'
    } else {
        match quote_target(c) {
            Some(m) => m,
            None => c,
        }
    }
}

/// Characters that the default cleaner writes as one ASCII character:
/// printable ASCII, Unicode space separators, dashes and quotation marks,
/// other than hidden (default-ignorable) characters.
pub open spec fn markable(c: char) -> bool {
    &&& ((' ' <= c && c <= '~') || space_separator(c) || dash_char(c) || quote_target(c) is Some)
    &&& !default_ignorable(c)
}

/// `t` with every character replaced by its [`ascii_mark`].
pub open spec fn ascii_marks(t: Seq<char>) -> Seq<char> {
    t.map_values(|c: char| ascii_mark(c))
}

/// The pass under the default options has written `q`, the marks of what it
/// read, with a run of spaces possibly still pending at its end.
pub open spec fn marks_written(st: ScanState, q: Seq<char>) -> bool {
    &&& st.out + st.pending == q
    &&& forall|i: int| 0 <= i < st.pending.len() ==> #[trigger] st.pending[i] == ' '
    &&& !st.drop_leading
    &&& !st.cap_next
    &&& (q.len() > 0 && q.last() != ' ') ==> st.pending.len() == 0
}

/// What a markable character becomes under the per-character normalizations
/// of the default options.
proof fn lemma_markable_char(st: ScanState, c: char)
    requires
        markable(c),
    ensures
        map_char(default_options(), st, c).1 == ascii_mark(c),
        map_char(default_options(), st, c).0.out == st.out,
        map_char(default_options(), st, c).0.pending == st.pending,
        map_char(default_options(), st, c).0.cap_next == st.cap_next,
        map_char(default_options(), st, c).0.drop_leading == st.drop_leading,
        map_char(default_options(), st, c).0.emitted == st.emitted,
        ' ' <= ascii_mark(c) && ascii_mark(c) <= '~',
        !crate::sets::disallowed_control(c),
        space_separator(c) ==> ascii_mark(c) == ' ',
        dash_char(c) ==> ascii_mark(c) == '-',
        quote_target(c) is Some && !space_separator(c) && !dash_char(c) ==> (ascii_mark(c) == '"'
            || ascii_mark(c) == '\''),
        ascii_mark(c) == ' ' ==> (c == ' ' || space_separator(c)),
{
    assert(!dash_char(' ') && quote_target(' ') is None && quote_target('-') is None);
}

/// Scanning the characters of a cluster of markable characters under the
/// default options collects their marks and writes nothing.
proof fn lemma_scan_chars_marks(em: bool, acc: ClusterScan, g: Seq<char>, i: int)
    requires
        0 <= i <= g.len(),
        forall|j: int| 0 <= j < g.len() ==> markable(#[trigger] g[j]),
        !acc.direct,
        acc.cluster == ascii_marks(g.take(i)),
    ensures
        ({
            let r = scan_chars(default_options(), em, acc, g, i);
            &&& r.cluster == ascii_marks(g)
            &&& !r.direct
            &&& r.st.out == acc.st.out
            &&& r.st.pending == acc.st.pending
            &&& r.st.cap_next == acc.st.cap_next
            &&& r.st.drop_leading == acc.st.drop_leading
            &&& r.st.emitted == acc.st.emitted
        }),
    decreases g.len() - i,
{
    let o = default_options();
    if i >= g.len() {
        assert(g.take(i) =~= g);
    } else {
        let c0 = g[i];
        lemma_markable_char(acc.st, c0);
        let (st3, c3) = map_char(o, acc.st, c0);
        assert(c3 == ascii_mark(c0));
        let next = scan_char(o, em, acc, c0);
        assert(next.cluster == acc.cluster.push(ascii_mark(c0)));
        assert(ascii_marks(g.take(i)).push(ascii_mark(c0)) =~= ascii_marks(g.take(i + 1)));
        lemma_scan_chars_marks(em, next, g, i + 1);
    }
}

/// One step of the default pass over a cluster of markable characters
/// writes their marks.
proof fn lemma_step_marks(st: ScanState, g: Seq<char>, q: Seq<char>)
    requires
        marks_written(st, q),
        forall|j: int| 0 <= j < g.len() ==> markable(#[trigger] g[j]),
    ensures
        marks_written(step(default_options(), st, g), q + ascii_marks(g)),
{
    let o = default_options();
    let m = ascii_marks(g);
    if g.len() == 0 {
        assert(q + m =~= q);
    } else {
        assert(!newline_grapheme(g)) by {
            lemma_markable_char(st, g[0]);
        }
        assert(!separator_grapheme(g)) by {
            lemma_markable_char(st, g[0]);
        }
        let em = emoji_cluster(o, g);
        let acc0 = ClusterScan { st, cluster: Seq::empty(), hidden_here: 0, direct: false };
        assert(ascii_marks(g.take(0)) =~= Seq::<char>::empty());
        lemma_scan_chars_marks(em, acc0, g, 0);
        let acc = scan_chars(o, em, acc0, g, 0);
        assert(step(o, st, g) == finish_cluster(o, em, acc));
        let a = acc.st;
        assert forall|j: int| 0 <= j < m.len() implies ' ' <= #[trigger] m[j] && m[j] <= '~' by {
            lemma_markable_char(st, g[j]);
        }
        if whitespace_only(m) {
            assert forall|j: int| 0 <= j < m.len() implies #[trigger] m[j] == ' ' by {}
            let r = step(o, st, g);
            assert(r.pending == a.pending + m);
            assert(r.out + r.pending =~= q + m);
            assert(forall|i: int| 0 <= i < r.pending.len() ==> #[trigger] r.pending[i] == ' ') by {
                assert forall|i: int| 0 <= i < r.pending.len() implies #[trigger] r.pending[i] == ' ' by {
                    if i >= a.pending.len() {
                        assert(r.pending[i] == m[i - a.pending.len()]);
                    }
                }
            }
            assert((q + m).last() == m.last());
        } else {
            let pol = o.non_ascii_policy;
            let ext = o.extended_keyboard;
            assert forall|j: int| 0 <= j < m.len() implies keyboard_allowed(#[trigger] m[j], ext) by {}
            crate::accounting::lemma_rewritten_identity(pol, ext, m);
            let r = step(o, st, g);
            if a.pending.len() > 0 {
                assert(crate::engine::ws_text(a.pending, false) == a.pending);
            }
            assert(r.out =~= q + m);
            assert(r.pending.len() == 0);
        }
    }
}

/// The default pass over clusters of markable characters, from index `i` on,
/// writes their marks.
proof fn lemma_fold_marks(gs: Seq<Seq<char>>, st: ScanState, i: int, q: Seq<char>)
    requires
        0 <= i <= gs.len(),
        marks_written(st, q),
        forall|k: int|
            0 <= k < gs.subrange(i, gs.len() as int).flatten().len() ==> markable(
                #[trigger] gs.subrange(i, gs.len() as int).flatten()[k],
            ),
    ensures
        marks_written(
            fold_steps(default_options(), gs, st, i),
            q + ascii_marks(gs.subrange(i, gs.len() as int).flatten()),
        ),
    decreases gs.len() - i,
{
    let o = default_options();
    let rest = gs.subrange(i, gs.len() as int);
    if i == gs.len() {
        assert(rest =~= Seq::<Seq<char>>::empty());
        assert(q + ascii_marks(rest.flatten()) =~= q);
    } else {
        let tail = gs.subrange(i + 1, gs.len() as int);
        assert(rest.drop_first() =~= tail);
        assert(rest.first() == gs[i]);
        assert(rest.flatten() == gs[i] + tail.flatten());
        assert forall|j: int| 0 <= j < gs[i].len() implies markable(#[trigger] gs[i][j]) by {
            assert(gs[i][j] == rest.flatten()[j]);
        }
        assert forall|k: int| 0 <= k < tail.flatten().len() implies markable(#[trigger] tail.flatten()[k]) by {
            assert(tail.flatten()[k] == rest.flatten()[gs[i].len() + k]);
        }
        lemma_step_marks(st, gs[i], q);
        lemma_fold_marks(gs, step(o, st, gs[i]), i + 1, q + ascii_marks(gs[i]));
        assert(ascii_marks(rest.flatten()) =~= ascii_marks(gs[i]) + ascii_marks(tail.flatten()));
        assert(q + ascii_marks(rest.flatten()) =~= (q + ascii_marks(gs[i])) + ascii_marks(
            tail.flatten(),
        ));
    }
}

/// The default cleaner writes typographic marks as ASCII: a text of printable
/// ASCII, Unicode space separators, dashes and quotation marks (hidden
/// characters aside) that does not end in a space cleans to the same text
/// with every space separator written as a space, every dash as `-`, and
/// every other quotation mark as `"` or `'`. So `a`, a space separator, `b`
/// cleans to `a b`, and a lone dash to `-`. This holds however the outside
/// segmentation cuts the text into clusters, so long as they concatenate
/// back to it, as the segmentation's clusters do.
pub proof fn default_cleaner_writes_marks_as_ascii(t: Seq<char>, h: bool)
    requires
        forall|i: int| 0 <= i < t.len() ==> markable(#[trigger] t[i]),
        t.len() > 0 ==> ascii_mark(t.last()) != ' ',
        grapheme_clusters(t).flatten() == t,
    ensures
        cleaned(default_options(), t, h).0 == ascii_marks(t),
        forall|i: int| 0 <= i < t.len() ==> ({
            let c = #[trigger] t[i];
            let m = ascii_marks(t)[i];
            &&& ' ' <= m && m <= '~'
            &&& space_separator(c) ==> m == ' '
            &&& dash_char(c) ==> m == '-'
            &&& (quote_target(c) is Some && !space_separator(c) && !dash_char(c)) ==> (m == '"'
                || m == '\'')
            &&& (' ' <= c && c <= '~') ==> m == c
        }),
{
    let o = default_options();
    assert forall|i: int| 0 <= i < t.len() implies ({
        let c = #[trigger] t[i];
        let m = ascii_marks(t)[i];
        &&& ' ' <= m && m <= '~'
        &&& space_separator(c) ==> m == ' '
        &&& dash_char(c) ==> m == '-'
        &&& (quote_target(c) is Some && !space_separator(c) && !dash_char(c)) ==> (m == '"' || m
            == '\'')
        &&& (' ' <= c && c <= '~') ==> m == c
    }) by {
        lemma_markable_char(initial_state(h), t[i]);
        assert(' ' <= t[i] && t[i] <= '~' ==> !space_separator(t[i]) && !dash_char(t[i])
            && quote_target(t[i]) is None);
    }
    if t.len() > 0 {
        assert(!ascii_fast_path(o, t));
        assert(crate::cleaner::normalized_input(o, t) == t);
        assert(crate::engine::pass_input(o, t) == t);
        let gs = grapheme_clusters(t);
        let init = initial_state(h);
        assert(gs.subrange(0, gs.len() as int) =~= gs);
        assert(marks_written(init, Seq::empty()));
        lemma_fold_marks(gs, init, 0, Seq::empty());
        let st = fold_steps(o, gs, init, 0);
        assert(Seq::<char>::empty() + ascii_marks(t) =~= ascii_marks(t));
        assert(ascii_marks(t).last() == ascii_mark(t.last()));
        assert(st.pending.len() == 0);
        assert(st.out + st.pending =~= st.out);
        assert(finish_text(o, st).out == st.out);
    } else {
        assert(ascii_marks(t) =~= t);
    }
}

/// The per-kind counts of a rewrite add up to the non-keyboard characters,
/// and under the drop policy the rewrite is the keyboard characters.
proof fn lemma_rewrite_counts(p: NonAsciiPolicy, ext: bool, cl: Seq<char>)
    ensures
        count_where(cl, transliterated_pred(p, ext)) + count_where(cl, removed_pred(p, ext))
            == count_where(cl, crate::engine::non_keyboard(ext)),
        p == NonAsciiPolicy::Drop ==> rewritten(p, ext, cl) == cl.filter(allowed_pred(ext)),
    decreases cl.len(),
{
    reveal(Seq::filter);
    if cl.len() > 0 {
        lemma_rewrite_counts(p, ext, cl.drop_last());
        if p == NonAsciiPolicy::Drop {
            let sub = cl.drop_last().filter(allowed_pred(ext));
            assert(rewritten(p, ext, cl) == rewritten(p, ext, cl.drop_last()) + rewrite_piece(p, ext)(
                cl.last(),
            ));
            assert(cl.filter(allowed_pred(ext)) == if allowed_pred(ext)(cl.last()) {
                sub.push(cl.last())
            } else {
                sub
            });
            if keyboard_allowed(cl.last(), ext) {
                assert(sub + seq![cl.last()] =~= sub.push(cl.last()));
            } else {
                assert(sub + Seq::<char>::empty() =~= sub);
            }
        }
    }
}

/// A keyboard-only rewrite of a cluster accounts for every character: what
/// it writes is keyboard-safe, every non-keyboard character of the cluster
/// is counted exactly once, as transliterated or as removed, and under the
/// drop policy the rewrite is the cluster's keyboard characters in order.
/// (`rewrite_cluster_to_keyboard_ascii` returns `None` exactly when the
/// rewrite is empty, and otherwise this text and these counts.)
pub proof fn keyboard_rewrite_accounts_for_every_character(p: NonAsciiPolicy, ext: bool, cl: Seq<char>)
    ensures
        forall|i: int|
            0 <= i < rewritten(p, ext, cl).len() ==> keyboard_allowed(
                #[trigger] rewritten(p, ext, cl)[i],
                ext,
            ),
        count_where(cl, transliterated_pred(p, ext)) + count_where(cl, removed_pred(p, ext))
            == count_where(cl, crate::engine::non_keyboard(ext)),
        p == NonAsciiPolicy::Drop ==> rewritten(p, ext, cl) == cl.filter(allowed_pred(ext)),
{
    lemma_rewrite_keyboard(p, ext, cl);
    lemma_rewrite_counts(p, ext, cl);
}

/// A space or a tab.
pub open spec fn blank(c: char) -> bool {
    c == ' ' || c == '\t'
}

/// No space or tab stands right before a line break (`\n` or `\r`), or at
/// the end of `t`.
pub open spec fn no_trailing_blanks(t: Seq<char>) -> bool {
    &&& forall|i: int|
        0 <= i < t.len() - 1 && #[trigger] blank(t[i]) ==> t[i + 1] != '\n' && t[i + 1] != '\r'
    &&& t.len() > 0 ==> !blank(t.last())
}

/// The default pass has written `q` as read, with a run of blanks possibly
/// still pending at its end.
pub open spec fn kept_as_read(st: ScanState, q: Seq<char>) -> bool {
    &&& st.out + st.pending == q
    &&& whitespace_only(st.pending)
    &&& !st.cap_next
    &&& !st.drop_leading
    &&& st.pending.len() > 0 ==> q.len() > 0 && blank(q.last())
}

/// Scanning keyboard characters under the default options keeps them and
/// writes nothing.
proof fn lemma_scan_chars_kept(em: bool, acc: ClusterScan, g: Seq<char>, i: int)
    requires
        0 <= i <= g.len(),
        forall|j: int| 0 <= j < g.len() ==> crate::sets::keyboard_ascii(#[trigger] g[j]),
        !acc.direct,
        acc.cluster == g.take(i),
    ensures
        ({
            let r = scan_chars(default_options(), em, acc, g, i);
            &&& r.cluster == g
            &&& !r.direct
            &&& r.st.out == acc.st.out
            &&& r.st.pending == acc.st.pending
            &&& r.st.cap_next == acc.st.cap_next
            &&& r.st.drop_leading == acc.st.drop_leading
        }),
    decreases g.len() - i,
{
    let o = default_options();
    if i >= g.len() {
        assert(g.take(i) =~= g);
    } else {
        let c0 = g[i];
        crate::locality::lemma_ascii_never_ignorable();
        assert(!default_ignorable(c0));
        assert(!space_separator(c0) && !dash_char(c0) && quote_target(c0) is None);
        let next = scan_char(o, em, acc, c0);
        assert(next.cluster == acc.cluster.push(c0));
        assert(g.take(i).push(c0) =~= g.take(i + 1));
        lemma_scan_chars_kept(em, next, g, i + 1);
    }
}

/// One default step over a cluster of keyboard characters writes it as read
/// (a line break finds nothing pending when no blank precedes it).
proof fn lemma_step_kept(st: ScanState, g: Seq<char>, q: Seq<char>)
    requires
        kept_as_read(st, q),
        forall|j: int| 0 <= j < g.len() ==> crate::sets::keyboard_ascii(#[trigger] g[j]),
        g.len() > 0 && (g[0] == '\n' || g[0] == '\r') && q.len() > 0 ==> !blank(q.last()),
    ensures
        kept_as_read(step(default_options(), st, g), q + g),
{
    let o = default_options();
    if g.len() == 0 {
        assert(q + g =~= q);
    } else if newline_grapheme(g) {
        assert(st.pending.len() == 0);
        let r = step(o, st, g);
        assert(r.out =~= q + g);
        assert(r.out + r.pending =~= r.out);
    } else {
        assert(!separator_grapheme(g)) by {
            assert(crate::sets::keyboard_ascii(g[0]));
        }
        let em = emoji_cluster(o, g);
        assert(!em) by {
            assert forall|j: int| 0 <= j < g.len() implies crate::sets::ascii_char(#[trigger] g[j]) by {
                assert(crate::sets::keyboard_ascii(g[j]));
            }
        }
        let acc0 = ClusterScan { st, cluster: Seq::empty(), hidden_here: 0, direct: false };
        assert(g.take(0) =~= Seq::<char>::empty());
        lemma_scan_chars_kept(em, acc0, g, 0);
        let acc = scan_chars(o, em, acc0, g, 0);
        assert(step(o, st, g) == finish_cluster(o, em, acc));
        let a = acc.st;
        let r = step(o, st, g);
        if whitespace_only(g) {
            assert(r.pending == a.pending + g);
            assert(r.out + r.pending =~= q + g);
            assert(whitespace_only(r.pending)) by {
                assert forall|i: int| 0 <= i < r.pending.len() implies (#[trigger] r.pending[i] == ' '
                    || r.pending[i] == '\t') by {
                    if i >= a.pending.len() {
                        assert(r.pending[i] == g[i - a.pending.len()]);
                    }
                }
            }
            assert((q + g).last() == g.last());
            assert(blank(g.last())) by {
                assert(g.last() == g[g.len() - 1]);
            }
        } else {
            let pol = o.non_ascii_policy;
            let ext = o.extended_keyboard;
            assert forall|j: int| 0 <= j < g.len() implies keyboard_allowed(#[trigger] g[j], ext) by {}
            crate::accounting::lemma_rewritten_identity(pol, ext, g);
            crate::locality::lemma_count_none(g, transliterated_pred(pol, ext));
            crate::locality::lemma_count_none(g, removed_pred(pol, ext));
            if a.pending.len() > 0 {
                assert(crate::engine::ws_text(a.pending, false) == a.pending);
            }
            assert(r.out =~= q + g);
            assert(r.pending.len() == 0);
            assert(r.out + r.pending =~= r.out);
        }
    }
}

/// The default pass over clusters of a keyboard text with no trailing
/// blanks, from index `i` on, writes the text as read.
proof fn lemma_fold_kept(gs: Seq<Seq<char>>, st: ScanState, i: int, q: Seq<char>, t: Seq<char>)
    requires
        0 <= i <= gs.len(),
        kept_as_read(st, q),
        q + gs.subrange(i, gs.len() as int).flatten() == t,
        no_trailing_blanks(t),
        forall|k: int| 0 <= k < t.len() ==> crate::sets::keyboard_ascii(#[trigger] t[k]),
    ensures
        kept_as_read(fold_steps(default_options(), gs, st, i), t),
    decreases gs.len() - i,
{
    let o = default_options();
    let rest = gs.subrange(i, gs.len() as int);
    if i == gs.len() {
        assert(rest =~= Seq::<Seq<char>>::empty());
        assert(q + rest.flatten() =~= q);
    } else {
        let tail = gs.subrange(i + 1, gs.len() as int);
        let g = gs[i];
        assert(rest.drop_first() =~= tail);
        assert(rest.first() == g);
        assert(rest.flatten() == g + tail.flatten());
        assert(t =~= (q + g) + tail.flatten());
        assert forall|j: int| 0 <= j < g.len() implies crate::sets::keyboard_ascii(#[trigger] g[j]) by {
            assert(g[j] == t[q.len() + j]);
        }
        if g.len() > 0 && (g[0] == '\n' || g[0] == '\r') && q.len() > 0 {
            assert(t[q.len() - 1] == q.last());
            assert(t[q.len() as int] == g[0]);
            if blank(q.last()) {
                assert(blank(t[q.len() - 1]));
            }
        }
        lemma_step_kept(st, g, q);
        lemma_fold_kept(gs, step(o, st, g), i + 1, q + g, t);
    }
}

/// The default cleaner leaves keyboard text as it is when no space or tab
/// stands before a line break or at its end, however the outside
/// segmentation cuts it into clusters (so long as they concatenate back to
/// it, as the segmentation's clusters do).
pub proof fn default_cleaner_keeps_settled_keyboard_text(t: Seq<char>, h: bool)
    requires
        forall|k: int| 0 <= k < t.len() ==> crate::sets::keyboard_ascii(#[trigger] t[k]),
        no_trailing_blanks(t),
        grapheme_clusters(t).flatten() == t,
    ensures
        cleaned(default_options(), t, h).0 == t,
{
    let o = default_options();
    if t.len() > 0 {
        assert(!ascii_fast_path(o, t));
        assert(crate::cleaner::normalized_input(o, t) == t);
        assert(crate::engine::pass_input(o, t) == t);
        let gs = grapheme_clusters(t);
        let init = initial_state(h);
        assert(gs.subrange(0, gs.len() as int) =~= gs);
        assert(kept_as_read(init, Seq::empty())) by {
            assert(Seq::<char>::empty() + Seq::<char>::empty() =~= Seq::<char>::empty());
        }
        assert(Seq::<char>::empty() + gs.flatten() =~= t);
        lemma_fold_kept(gs, init, 0, Seq::empty(), t);
        let st = fold_steps(o, gs, init, 0);
        assert(st.pending.len() == 0);
        assert(st.out + st.pending =~= st.out);
        assert(finish_text(o, st).out == st.out);
    }
}

/// Cleaning with the default options is idempotent wherever its output has
/// no space or tab before a line break or at its end: cleaning the cleaned
/// text again gives it back (however the outside segmentation cuts that
/// output into clusters, so long as they concatenate back to it). Where the
/// output does end a line with a blank, the second pass trims it.
pub proof fn default_cleaning_is_idempotent(s: Seq<char>, h: bool)
    requires
        no_trailing_blanks(cleaned(default_options(), s, h).0),
        grapheme_clusters(cleaned(default_options(), s, h).0).flatten() == cleaned(
            default_options(),
            s,
            h,
        ).0,
    ensures
        cleaned(default_options(), cleaned(default_options(), s, h).0, false).0 == cleaned(
            default_options(),
            s,
            h,
        ).0,
{
    let o = default_options();
    let t = cleaned(o, s, h).0;
    keyboard_only_output_is_keyboard_safe(o, s, h);
    assert forall|k: int| 0 <= k < t.len() implies crate::sets::keyboard_ascii(#[trigger] t[k]) by {
        assert(keyboard_allowed(t[k], false));
    }
    default_cleaner_keeps_settled_keyboard_text(t, false);
}

/// A character that keyboard-only cleaning under `o` drops: not a keyboard
/// character, untouched by every per-character normalization, not hidden or
/// a control, and rewritten to nothing.
pub open spec fn dropped_char(o: CleaningOptions, d: char) -> bool {
    &&& !keyboard_allowed(d, o.extended_keyboard)
    &&& replacement(o.non_ascii_policy, o.extended_keyboard, d).len() == 0
    &&& !default_ignorable(d)
    &&& !crate::sets::disallowed_control(d)
    &&& !space_separator(d)
    &&& !dash_char(d)
    &&& quote_target(d) is None
    &&& d != crate::rewrite::FRACTION_SLASH
    &&& d != crate::engine::HORIZONTAL_ELLIPSIS
    &&& d != crate::engine::MIDLINE_HORIZONTAL_ELLIPSIS
    &&& d != '\u{2028}'
    &&& d != '\u{2029}'
}

/// A non-empty run of spaces and tabs.
pub open spec fn blank_run(w: Seq<char>) -> bool {
    w.len() > 0 && whitespace_only(w)
}

/// A step over a dropped character writes nothing, keeps at most one space
/// pending, and caps the next whitespace run to one space.
proof fn lemma_drop_step(o: CleaningOptions, st: ScanState, d: char)
    requires
        o.keyboard_only,
        o.emoji_policy == EmojiPolicy::Drop,
        dropped_char(o, d),
    ensures
        step(o, st, seq![d]).out == st.out,
        step(o, st, seq![d]).cap_next,
        step(o, st, seq![d]).pending == (if st.pending.len() > 0 {
            seq![' ']
        } else {
            Seq::<char>::empty()
        }),
        step(o, st, seq![d]).drop_leading == (st.pending.len() == 0 && !st.emitted),
        step(o, st, seq![d]).emitted == st.emitted,
{
    let g = seq![d];
    assert(!newline_grapheme(g)) by {
        assert(g[0] == d);
    }
    assert(!separator_grapheme(g)) by {
        assert(g[0] == d);
    }
    let em = emoji_cluster(o, g);
    let acc = ClusterScan { st, cluster: Seq::empty(), hidden_here: 0, direct: false };
    let next = scan_char(o, em, acc, d);
    assert(scan_chars(o, em, next, g, 1) == next);
    assert(Seq::<char>::empty().push(d) =~= g);
    assert(next.cluster == g);
    assert(next.st.out == st.out && next.st.pending == st.pending && next.st.emitted == st.emitted);
    assert(!whitespace_only(g)) by {
        assert(g[0] == d);
    }
    let pol = o.non_ascii_policy;
    let ext = o.extended_keyboard;
    assert(rewritten(pol, ext, g) == expand(g.drop_last(), rewrite_piece(pol, ext)) + rewrite_piece(
        pol,
        ext,
    )(g.last()));
    assert(g.drop_last() =~= Seq::<char>::empty());
    assert(rewritten(pol, ext, g).len() == 0);
    assert(step(o, st, g) == finish_cluster(o, em, next));
}

/// A cluster dropped between two whitespace runs leaves exactly one space in
/// its place: in keyboard-only mode, after a run of blanks, a dropped
/// character and another run of blanks, the pass has written nothing more
/// and holds a single pending space (whatever the two runs were), so the
/// dropped character never widens the gap.
pub proof fn dropped_cluster_between_blanks_leaves_one_space(
    o: CleaningOptions,
    st: ScanState,
    w1: Seq<char>,
    d: char,
    w2: Seq<char>,
)
    requires
        o.keyboard_only,
        o.emoji_policy == EmojiPolicy::Drop,
        dropped_char(o, d),
        blank_run(w1),
        blank_run(w2),
    ensures
        ({
            let s3 = step(o, step(o, step(o, st, w1), seq![d]), w2);
            &&& s3.out == st.out
            &&& s3.pending == seq![' ']
            &&& !s3.cap_next
            &&& !s3.drop_leading
        }),
{
    let s1 = step(o, st, w1);
    assert(!newline_grapheme(w1)) by {
        assert(whitespace_only(w1));
        assert(w1[0] == ' ' || w1[0] == '\t');
    }
    assert(!separator_grapheme(w1)) by {
        assert(w1[0] == ' ' || w1[0] == '\t');
    }
    lemma_blank_step(o, st, w1);
    lemma_drop_step(o, s1, d);
    let s2 = step(o, s1, seq![d]);
    lemma_blank_step(o, s2, w2);
}

/// A step over a run of blanks writes nothing: the run joins the pending
/// whitespace, or replaces it by one space when the next run is capped.
proof fn lemma_blank_step(o: CleaningOptions, st: ScanState, w: Seq<char>)
    requires
        blank_run(w),
    ensures
        step(o, st, w).out == st.out,
        step(o, st, w).pending == (if st.cap_next {
            seq![' ']
        } else {
            st.pending + w
        }),
        !step(o, st, w).cap_next,
        step(o, st, w).drop_leading == st.drop_leading,
        step(o, st, w).emitted == st.emitted,
{
    assert(!newline_grapheme(w)) by {
        assert(w[0] == ' ' || w[0] == '\t');
    }
    assert(!separator_grapheme(w)) by {
        assert(w[0] == ' ' || w[0] == '\t');
    }
    let em = emoji_cluster(o, w);
    let acc0 = ClusterScan { st, cluster: Seq::empty(), hidden_here: 0, direct: false };
    assert(w.take(0) =~= Seq::<char>::empty());
    lemma_scan_blanks(o, em, acc0, w, 0);
    assert(step(o, st, w) == finish_cluster(o, em, scan_chars(o, em, acc0, w, 0)));
}

/// Scanning a run of blanks keeps it as it is and writes nothing.
proof fn lemma_scan_blanks(o: CleaningOptions, em: bool, acc: ClusterScan, w: Seq<char>, i: int)
    requires
        0 <= i <= w.len(),
        whitespace_only(w),
        !acc.direct,
        acc.cluster == w.take(i),
    ensures
        ({
            let r = scan_chars(o, em, acc, w, i);
            &&& r.cluster == w
            &&& !r.direct
            &&& r.st.out == acc.st.out
            &&& r.st.pending == acc.st.pending
            &&& r.st.cap_next == acc.st.cap_next
            &&& r.st.drop_leading == acc.st.drop_leading
            &&& r.st.emitted == acc.st.emitted
        }),
    decreases w.len() - i,
{
    if i >= w.len() {
        assert(w.take(i) =~= w);
    } else {
        let c0 = w[i];
        assert(c0 == ' ' || c0 == '\t');
        assert(!space_separator(c0) && !dash_char(c0) && quote_target(c0) is None);
        let next = scan_char(o, em, acc, c0);
        assert(next.cluster == acc.cluster.push(c0));
        assert(w.take(i).push(c0) =~= w.take(i + 1));
        lemma_scan_blanks(o, em, next, w, i + 1);
    }
}

/// With the default options, a dropped character standing alone between two
/// words leaves one space between them: `a`, a space, the dropped
/// character, a space, `b` cleans to `a b`, where each character is a
/// cluster of its own (as the segmentation makes them).
#[verifier::spinoff_prover]
#[verifier::rlimit(60)]
pub proof fn default_cleaner_closes_gap_of_dropped_char(a: char, d: char, b: char, h: bool)
    requires
        'a' <= a && a <= 'z',
        'a' <= b && b <= 'z',
        dropped_char(default_options(), d),
        grapheme_clusters(seq![a, ' ', d, ' ', b]) == seq![seq![a], seq![' '], seq![d], seq![' '], seq![b]],
    ensures
        cleaned(default_options(), seq![a, ' ', d, ' ', b], h).0 == seq![a, ' ', b],
{
    let o = default_options();
    let t = seq![a, ' ', d, ' ', b];
    let gs = seq![seq![a], seq![' '], seq![d], seq![' '], seq![b]];
    assert(!ascii_fast_path(o, t));
    assert(crate::cleaner::normalized_input(o, t) == t);
    assert(crate::engine::pass_input(o, t) == t);
    let s0 = initial_state(h);
    let s1 = step(o, s0, gs[0]);
    let s2 = step(o, s1, gs[1]);
    let s3 = step(o, s2, gs[2]);
    let s4 = step(o, s3, gs[3]);
    let s5 = step(o, s4, gs[4]);
    assert(fold_steps(o, gs, s0, 0) == s5) by {
        assert(fold_steps(o, gs, s5, 5) == s5);
        assert(fold_steps(o, gs, s4, 4) == s5);
        assert(fold_steps(o, gs, s3, 3) == s5);
        assert(fold_steps(o, gs, s2, 2) == s5);
        assert(fold_steps(o, gs, s1, 1) == s5);
    }
    assert(markable(a) && markable(b) && markable(' '));
    assert(marks_written(s0, Seq::empty()));
    assert forall|j: int| 0 <= j < seq![a].len() implies markable(#[trigger] seq![a][j]) by {}
    lemma_step_marks(s0, seq![a], Seq::empty());
    assert(ascii_marks(seq![a]) =~= seq![a]);
    assert(Seq::<char>::empty() + seq![a] =~= seq![a]);
    assert(s1.pending.len() == 0);
    assert(s1.out =~= seq![a]);
    assert(blank_run(seq![' ']));
    dropped_cluster_between_blanks_leaves_one_space(o, s1, seq![' '], d, seq![' ']);
    assert(s4.out == seq![a] && s4.pending == seq![' '] && !s4.drop_leading);
    assert forall|j: int| 0 <= j < seq![b].len() implies markable(#[trigger] seq![b][j]) by {}
    assert(marks_written(s4, seq![a, ' '])) by {
        assert(s4.out + s4.pending =~= seq![a, ' ']);
    }
    lemma_step_marks(s4, seq![b], seq![a, ' ']);
    assert(ascii_marks(seq![b]) =~= seq![b]);
    assert(seq![a, ' '] + seq![b] =~= seq![a, ' ', b]);
    assert(s5.pending.len() == 0);
    assert(s5.out + s5.pending =~= s5.out);
    assert(finish_text(o, s5) == s5);
}

/// With the default options, whitespace that stands at the very start of the
/// output only because a cluster before it was dropped is dropped too: a
/// dropped character, a space and `b`, with nothing emitted before, cleans
/// to `b` (each character a cluster of its own).
#[verifier::spinoff_prover]
#[verifier::rlimit(60)]
pub proof fn default_cleaner_drops_leading_gap_of_dropped_char(d: char, b: char)
    requires
        'a' <= b && b <= 'z',
        dropped_char(default_options(), d),
        grapheme_clusters(seq![d, ' ', b]) == seq![seq![d], seq![' '], seq![b]],
    ensures
        cleaned(default_options(), seq![d, ' ', b], false).0 == seq![b],
{
    let o = default_options();
    let t = seq![d, ' ', b];
    let gs = seq![seq![d], seq![' '], seq![b]];
    assert(!ascii_fast_path(o, t));
    assert(crate::cleaner::normalized_input(o, t) == t);
    assert(crate::engine::pass_input(o, t) == t);
    let s0 = initial_state(false);
    let s1 = step(o, s0, gs[0]);
    let s2 = step(o, s1, gs[1]);
    let s3 = step(o, s2, gs[2]);
    assert(fold_steps(o, gs, s0, 0) == s3) by {
        assert(fold_steps(o, gs, s3, 3) == s3);
        assert(fold_steps(o, gs, s2, 2) == s3);
        assert(fold_steps(o, gs, s1, 1) == s3);
    }
    lemma_drop_step(o, s0, d);
    assert(s1.out.len() == 0 && s1.pending.len() == 0 && s1.drop_leading && !s1.emitted);
    assert(blank_run(seq![' ']));
    lemma_blank_step(o, s1, seq![' ']);
    assert(s2.out.len() == 0 && s2.pending == seq![' '] && s2.drop_leading && !s2.emitted);
    let em = emoji_cluster(o, seq![b]);
    let acc0 = ClusterScan { st: s2, cluster: Seq::empty(), hidden_here: 0, direct: false };
    assert(markable(b));
    assert forall|j: int| 0 <= j < seq![b].len() implies markable(#[trigger] seq![b][j]) by {}
    assert(ascii_marks(seq![b].take(0)) =~= Seq::<char>::empty());
    lemma_scan_chars_marks(em, acc0, seq![b], 0);
    assert(ascii_marks(seq![b]) =~= seq![b]);
    let acc = scan_chars(o, em, acc0, seq![b], 0);
    assert(s3 == finish_cluster(o, em, acc));
    assert(!whitespace_only(seq![b])) by {
        assert(seq![b][0] == b);
    }
    let pol = o.non_ascii_policy;
    assert(keyboard_allowed(b, false));
    crate::accounting::lemma_rewritten_identity(pol, false, seq![b]);
    crate::locality::lemma_count_none(seq![b], transliterated_pred(pol, false));
    crate::locality::lemma_count_none(seq![b], removed_pred(pol, false));
    assert(s3.out =~= seq![b]);
    assert(s3.pending.len() == 0);
    assert(finish_text(o, s3) == s3);
}

} // verus!
