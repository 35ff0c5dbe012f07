//! The cleaning engine: a single pass over the grapheme clusters of the text,
//! specified as a fold of [`step`] over [`ScanState`].

use vstd::prelude::*;
use crate::options::{CleaningOptions, EmojiPolicy, LineEndingStyle};
use crate::stats::{bump, record, zero_stats, CleaningStats, StatField};
use crate::sets::{
    ascii_char, default_ignorable, disallowed_control, emoji_presentation, emoji_property,
    extended_pictographic, has_emoji_presentation, is_disallowed_control, is_emoji,
    is_extended_pictographic, is_hidden_char, is_joiner, is_keyboard_allowed, joiner,
    keyboard_allowed,
};
use crate::tables::{dash_char, is_dash_char, is_space_separator, map_quote, quote_target, space_separator};
use crate::rewrite::{
    removed_pred, rewrite_cluster_to_keyboard_ascii, rewritten, transliterated_pred, FRACTION_SLASH,
};
use crate::lines::{
    breaks_in_style, lemma_concat_lf, lemma_flatten_parts_lf, lemma_lf_text_clean,
    lemma_restamp_style, lf_clean, lf_only, lf_tally, lf_text, restamp_count,
    restamp_line_endings_mut, restamped, tally_total, to_lf, LineEndingCounts,
};
use crate::text::{grapheme_clusters, graphemes};
use crate::util::{count_where, lemma_count_le_len, lemma_count_take};

verus! {

/// U+2026 HORIZONTAL ELLIPSIS.
pub const HORIZONTAL_ELLIPSIS: char = '\u{2026}';

/// U+22EF MIDLINE HORIZONTAL ELLIPSIS.
pub const MIDLINE_HORIZONTAL_ELLIPSIS: char = '\u{22EF}';

/// The state of the pass between grapheme clusters.
pub struct ScanState {
    /// Output emitted so far.
    pub out: Seq<char>,
    /// Spaces/tabs seen but not yet emitted.
    pub pending: Seq<char>,
    /// The next whitespace run counts as a single space (after a dropped cluster).
    pub cap_next: bool,
    /// Pending whitespace is leading whitespace left by dropped clusters.
    pub drop_leading: bool,
    /// Something was emitted, in this text or in an earlier chunk.
    pub emitted: bool,
    pub changes: u64,
    pub stats: CleaningStats,
}

/// `st` with `amount` changes billed to `f`.
pub open spec fn rec(st: ScanState, f: StatField, amount: u64) -> ScanState {
    ScanState { changes: st.changes.saturating_add(amount), stats: bump(st.stats, f, amount), ..st }
}

/// What a pending whitespace run flushes to: itself, or a single space when
/// whitespace is collapsed.
pub open spec fn ws_text(p: Seq<char>, collapse: bool) -> Seq<char> {
    if p.len() == 0 {
        Seq::empty()
    } else if collapse {
        seq![' ']
    } else {
        p
    }
}

/// Collapsing rewrites the pending run (it is not already a single space).
pub open spec fn collapses(o: CleaningOptions, p: Seq<char>) -> bool {
    o.collapse_whitespace && p.len() > 0 && p != seq![' ']
}

/// Write the pending whitespace out; a collapse that rewrites it is counted.
pub open spec fn flush_ws(o: CleaningOptions, st: ScanState) -> ScanState {
    let st1 = ScanState { out: st.out + ws_text(st.pending, o.collapse_whitespace), ..st };
    if collapses(o, st.pending) {
        rec(st1, StatField::SpacesNormalized, 1)
    } else {
        st1
    }
}

/// Emit `text` after the pending whitespace (which is dropped when it only
/// exists because clusters before it were dropped).
pub open spec fn emit(o: CleaningOptions, st: ScanState, text: Seq<char>) -> ScanState {
    let st1 = if st.pending.len() > 0 && !(st.drop_leading && !st.emitted) {
        flush_ws(o, st)
    } else {
        st
    };
    ScanState {
        out: st1.out + text,
        pending: Seq::empty(),
        emitted: true,
        drop_leading: false,
        ..st1
    }
}

/// Settle the pending whitespace before a line break: trimmed (and counted)
/// or flushed. Whitespace handling starts afresh on the next line.
pub open spec fn break_line(o: CleaningOptions, st: ScanState) -> ScanState {
    if o.remove_trailing_whitespace {
        let st1 = if st.pending.len() > 0 {
            rec(st, StatField::TrailingWhitespaceRemoved, st.pending.len() as u64)
        } else {
            st
        };
        ScanState { pending: Seq::empty(), cap_next: false, ..st1 }
    } else {
        ScanState { pending: Seq::empty(), cap_next: false, ..flush_ws(o, st) }
    }
}

/// Emit a line break.
pub open spec fn after_break(st: ScanState, text: Seq<char>) -> ScanState {
    ScanState { out: st.out + text, emitted: true, drop_leading: false, ..st }
}

/// `"\n"`, `"\r"` or `"\r\n"`.
pub open spec fn newline_grapheme(g: Seq<char>) -> bool {
    (g.len() == 1 && (g[0] == '\n' || g[0] == '\r')) || (g.len() == 2 && g[0] == '\r' && g[1]
        == '\n')
}

/// U+2028 LINE SEPARATOR or U+2029 PARAGRAPH SEPARATOR alone.
pub open spec fn separator_grapheme(g: Seq<char>) -> bool {
    g.len() == 1 && (g[0] == '\u{2028}' || g[0] == '\u{2029}')
}

/// All characters ASCII.
pub open spec fn all_ascii(g: Seq<char>) -> bool {
    forall|i: int| 0 <= i < g.len() ==> ascii_char(#[trigger] g[i])
}

/// A cluster that renders as an emoji: it has an emoji-presentation or
/// extended-pictographic character, or an emoji character together with
/// VS16, ZWJ or a combining keycap.
pub open spec fn renders_as_emoji(g: Seq<char>) -> bool {
    (exists|i: int| 0 <= i < g.len() && emoji_presentation(#[trigger] g[i])) || (exists|i: int|
        0 <= i < g.len() && extended_pictographic(#[trigger] g[i])) || ((exists|i: int|
        0 <= i < g.len() && emoji_property(#[trigger] g[i])) && (g.contains('\u{FE0F}')
        || g.contains('\u{200D}') || g.contains('\u{20E3}')))
}

/// Whether the engine treats cluster `g` as an emoji under `o`.
pub open spec fn emoji_cluster(o: CleaningOptions, g: Seq<char>) -> bool {
    !all_ascii(g) && (o.keyboard_only || o.remove_hidden) && renders_as_emoji(g)
}

/// The state while the characters of one cluster are processed.
pub struct ClusterScan {
    pub st: ScanState,
    /// The cluster's characters after per-character normalization.
    pub cluster: Seq<char>,
    /// Hidden characters removed from this cluster.
    pub hidden_here: u64,
    /// The cluster was emitted directly (an ellipsis).
    pub direct: bool,
}

/// The per-character normalizations that map a character to another:
/// spaces, dashes, quotes. Returns the state and the character.
pub open spec fn map_char(o: CleaningOptions, st: ScanState, c0: char) -> (ScanState, char) {
    let (st1, c1) = if o.normalize_spaces && space_separator(c0) {
        (rec(st, StatField::SpacesNormalized, 1), ' ')
    } else {
        (st, c0)
    };
    let (st2, c2) = if o.normalize_dashes && dash_char(c1) {
        (if '-' != c1 {
            rec(st1, StatField::DashesNormalized, 1)
        } else {
            st1
        }, '-')
    } else {
        (st1, c1)
    };
    match quote_target(c2) {
        Some(m) if o.normalize_quotes => (if m != c2 {
            rec(st2, StatField::QuotesNormalized, 1)
        } else {
            st2
        }, m),
        _ => (st2, c2),
    }
}

/// One character of a cluster.
pub open spec fn scan_char(o: CleaningOptions, em: bool, acc: ClusterScan, c0: char) -> ClusterScan {
    if o.remove_hidden && default_ignorable(c0) {
        let keep = (o.preserve_joiners && joiner(c0)) || ((!o.keyboard_only || o.emoji_policy
            == EmojiPolicy::Keep) && em);
        if keep {
            ClusterScan { cluster: acc.cluster.push(c0), ..acc }
        } else {
            ClusterScan {
                st: rec(acc.st, StatField::HiddenCharsRemoved, 1),
                hidden_here: acc.hidden_here.saturating_add(1),
                ..acc
            }
        }
    } else if o.remove_control_chars && disallowed_control(c0) {
        ClusterScan { st: rec(acc.st, StatField::ControlCharsRemoved, 1), ..acc }
    } else {
        let (st3, c3) = map_char(o, acc.st, c0);
        if o.normalize_other && c3 == FRACTION_SLASH {
            ClusterScan {
                st: rec(st3, StatField::OtherNormalized, 1),
                cluster: acc.cluster.push('/'),
                ..acc
            }
        } else if o.normalize_other && (c3 == HORIZONTAL_ELLIPSIS || c3
            == MIDLINE_HORIZONTAL_ELLIPSIS) {
            ClusterScan {
                st: rec(emit(o, st3, seq!['.', '.', '.']), StatField::OtherNormalized, 1),
                direct: true,
                ..acc
            }
        } else {
            ClusterScan { st: st3, cluster: acc.cluster.push(c3), ..acc }
        }
    }
}

/// The characters of `g` from index `i` on, stopping after a direct emission.
pub open spec fn scan_chars(o: CleaningOptions, em: bool, acc: ClusterScan, g: Seq<char>, i: int) -> ClusterScan
    decreases g.len() - i,
{
    if i >= g.len() || i < 0 || acc.direct {
        acc
    } else {
        scan_chars(o, em, scan_char(o, em, acc, g[i]), g, i + 1)
    }
}

/// Only spaces and tabs.
pub open spec fn whitespace_only(cl: Seq<char>) -> bool {
    forall|i: int| 0 <= i < cl.len() ==> (#[trigger] cl[i] == ' ' || cl[i] == '\t')
}

/// Characters that keyboard-only output does not keep as they are.
pub open spec fn non_keyboard(ext: bool) -> spec_fn(char) -> bool {
    |c: char| !keyboard_allowed(c, ext)
}

/// A cluster was dropped: the next whitespace run counts once, and whitespace
/// before any output stays droppable.
pub open spec fn drop_cluster(st: ScanState) -> ScanState {
    ScanState {
        cap_next: true,
        drop_leading: st.pending.len() == 0 && !st.emitted,
        pending: if st.pending.len() > 0 {
            seq![' ']
        } else {
            Seq::empty()
        },
        ..st
    }
}

/// `st` with `amount` billed to `f` when `amount` is positive.
pub open spec fn rec_if(st: ScanState, f: StatField, amount: nat) -> ScanState {
    if amount > 0 {
        rec(st, f, amount as u64)
    } else {
        st
    }
}

/// What happens to a cluster once its characters are processed.
pub open spec fn finish_cluster(o: CleaningOptions, em: bool, acc: ClusterScan) -> ScanState {
    let st = acc.st;
    let cl = acc.cluster;
    if acc.direct || cl.len() == 0 {
        st
    } else if whitespace_only(cl) {
        if st.cap_next {
            ScanState { pending: seq![' '], cap_next: false, ..st }
        } else {
            ScanState { pending: st.pending + cl, ..st }
        }
    } else if o.keyboard_only {
        let p = o.non_ascii_policy;
        let ext = o.extended_keyboard;
        if em && o.emoji_policy == EmojiPolicy::Keep {
            emit(o, st, cl)
        } else if rewritten(p, ext, cl).len() > 0 {
            let st1 = rec_if(
                st,
                StatField::NonKeyboardTransliterated,
                count_where(cl, transliterated_pred(p, ext)),
            );
            let st2 = rec_if(
                st1,
                StatField::NonKeyboardRemoved,
                count_where(cl, removed_pred(p, ext)),
            );
            emit(o, st2, rewritten(p, ext, cl))
        } else if em {
            let hh = acc.hidden_here;
            let st1 = if hh > 0 {
                ScanState {
                    changes: st.changes.saturating_sub(hh),
                    stats: CleaningStats {
                        hidden_chars_removed: st.stats.hidden_chars_removed.saturating_sub(hh),
                        ..st.stats
                    },
                    ..st
                }
            } else {
                st
            };
            drop_cluster(rec(st1, StatField::EmojisDropped, 1))
        } else {
            drop_cluster(rec_if(st, StatField::NonKeyboardRemoved, count_where(cl, non_keyboard(ext))))
        }
    } else {
        emit(o, st, cl)
    }
}

/// One grapheme cluster of the pass.
pub open spec fn step(o: CleaningOptions, st: ScanState, g: Seq<char>) -> ScanState {
    if g.len() == 0 {
        st
    } else if newline_grapheme(g) {
        after_break(break_line(o, st), g)
    } else if o.normalize_spaces && o.normalize_line_endings is None && separator_grapheme(g) {
        after_break(rec(break_line(o, st), StatField::SpacesNormalized, 1), seq!['\n'])
    } else {
        let em = emoji_cluster(o, g);
        let acc = scan_chars(
            o,
            em,
            ClusterScan { st, cluster: Seq::empty(), hidden_here: 0, direct: false },
            g,
            0,
        );
        finish_cluster(o, em, acc)
    }
}

/// The clusters of `gs` from index `i` on.
pub open spec fn fold_steps(o: CleaningOptions, gs: Seq<Seq<char>>, st: ScanState, i: int) -> ScanState
    decreases gs.len() - i,
{
    if i >= gs.len() || i < 0 {
        st
    } else {
        fold_steps(o, gs, step(o, st, gs[i]), i + 1)
    }
}

/// Settle the whitespace left pending at the end of the text.
pub open spec fn finish_text(o: CleaningOptions, st: ScanState) -> ScanState {
    if o.remove_trailing_whitespace {
        rec_if(st, StatField::TrailingWhitespaceRemoved, st.pending.len())
    } else if st.pending.len() > 0 && !(st.drop_leading && !st.emitted) {
        flush_ws(o, st)
    } else {
        st
    }
}

/// The state before any cluster.
pub open spec fn initial_state(has_prior_output: bool) -> ScanState {
    ScanState {
        out: Seq::empty(),
        pending: Seq::empty(),
        cap_next: false,
        drop_leading: false,
        emitted: has_prior_output,
        changes: 0,
        stats: zero_stats(),
    }
}

/// The text the pass runs over: line breaks folded to LF when line endings
/// are normalized.
pub open spec fn pass_input(o: CleaningOptions, working: Seq<char>) -> Seq<char> {
    if o.normalize_line_endings is Some {
        lf_text(working)
    } else {
        working
    }
}

/// The state after the pass and the final whitespace.
pub open spec fn pass_result(o: CleaningOptions, working: Seq<char>, has_prior_output: bool) -> ScanState {
    finish_text(
        o,
        fold_steps(
            o,
            grapheme_clusters(pass_input(o, working)),
            initial_state(has_prior_output),
            0,
        ),
    )
}

/// The cleaned text, changes and stats for an already normalized input.
pub open spec fn clean_core(o: CleaningOptions, working: Seq<char>, has_prior_output: bool) -> (Seq<char>, u64, CleaningStats) {
    let st = pass_result(o, working, has_prior_output);
    let tally = lf_tally(working);
    match o.normalize_line_endings {
        Some(LineEndingStyle::Lf) => {
            let st1 = rec_if(st, StatField::LineEndingsNormalized, tally_total(tally));
            (st1.out, st1.changes, st1.stats)
        },
        Some(style) => {
            let baseline = if style == LineEndingStyle::Crlf {
                tally.crlf
            } else {
                tally.cr
            };
            let net = (restamp_count(style, st.out) as u64).saturating_sub(baseline as u64);
            let st1 = rec_if(st, StatField::LineEndingsNormalized, net as nat);
            (restamped(style, st.out), st1.changes, st1.stats)
        },
        None => (st.out, st.changes, st.stats),
    }
}


/// Pending whitespace holds only spaces and tabs.
pub proof fn lemma_ws_lf(p: Seq<char>, collapse: bool)
    requires
        whitespace_only(p),
    ensures
        lf_only(p),
        lf_only(ws_text(p, collapse)),
        whitespace_only(ws_text(p, collapse)),
{
}

/// Flushing whitespace-only pending text keeps the output without CR, NEL,
/// LS or PS.
proof fn lemma_flush_lf(o: CleaningOptions, st: ScanState)
    requires
        lf_only(st.out),
        whitespace_only(st.pending),
    ensures
        lf_only(flush_ws(o, st).out),
{
    lemma_ws_lf(st.pending, o.collapse_whitespace);
    lemma_concat_lf(st.out, ws_text(st.pending, o.collapse_whitespace));
}

/// Emitting text without CR, NEL, LS or PS keeps the output without them.
proof fn lemma_emit_lf(o: CleaningOptions, st: ScanState, text: Seq<char>)
    requires
        lf_only(st.out),
        lf_only(text),
        whitespace_only(st.pending),
    ensures
        lf_only(emit(o, st, text).out),
{
    lemma_flush_lf(o, st);
    let st1 = if st.pending.len() > 0 && !(st.drop_leading && !st.emitted) {
        flush_ws(o, st)
    } else {
        st
    };
    lemma_concat_lf(st1.out, text);
}

/// The characters of a cluster without CR, NEL, LS or PS leave the output
/// and the cluster without them, and the pending text whitespace-only.
proof fn lemma_scan_chars_lf(o: CleaningOptions, em: bool, acc: ClusterScan, g: Seq<char>, i: int)
    requires
        lf_only(acc.st.out),
        lf_only(acc.cluster),
        lf_only(g),
        whitespace_only(acc.st.pending),
    ensures
        lf_only(scan_chars(o, em, acc, g, i).st.out),
        lf_only(scan_chars(o, em, acc, g, i).cluster),
        whitespace_only(scan_chars(o, em, acc, g, i).st.pending),
    decreases g.len() - i,
{
    if !(i >= g.len() || i < 0 || acc.direct) {
        let c0 = g[i];
        assert(lf_clean(c0));
        let next = scan_char(o, em, acc, c0);
        let (st3, c3) = map_char(o, acc.st, c0);
        assert(st3.out == acc.st.out);
        assert(st3.pending == acc.st.pending);
        assert(lf_clean(c3));
        lemma_emit_lf(o, st3, seq!['.', '.', '.']);
        lemma_concat_lf(acc.cluster, seq![c0]);
        lemma_concat_lf(acc.cluster, seq![c3]);
        lemma_concat_lf(acc.cluster, seq!['/']);
        assert(acc.cluster.push(c0) == acc.cluster + seq![c0]);
        assert(acc.cluster.push(c3) == acc.cluster + seq![c3]);
        assert(acc.cluster.push('/') == acc.cluster + seq!['/']);
        assert(lf_only(next.st.out));
        assert(lf_only(next.cluster));
        assert(whitespace_only(next.st.pending));
        lemma_scan_chars_lf(o, em, next, g, i + 1);
    }
}

/// The final whitespace flush emits only spaces and tabs.
proof fn lemma_finish_text_lf(o: CleaningOptions, st: ScanState)
    requires
        lf_only(st.out),
        whitespace_only(st.pending),
    ensures
        lf_only(finish_text(o, st).out),
{
    lemma_flush_lf(o, st);
}

/// Whitespace-only pending text stays whitespace-only across a step.
pub proof fn lemma_step_ws(o: CleaningOptions, st: ScanState, g: Seq<char>)
    requires
        whitespace_only(st.pending),
    ensures
        whitespace_only(step(o, st, g).pending),
{
    if g.len() > 0 && !newline_grapheme(g) && !(o.normalize_spaces
        && o.normalize_line_endings is None && separator_grapheme(g)) {
        let em = emoji_cluster(o, g);
        let acc0 = ClusterScan { st, cluster: Seq::empty(), hidden_here: 0, direct: false };
        lemma_scan_chars_ws(o, em, acc0, g, 0);
        let acc = scan_chars(o, em, acc0, g, 0);
        let cl = acc.cluster;
        if whitespace_only(cl) && !acc.st.cap_next {
            assert(whitespace_only(acc.st.pending + cl)) by {
                let p = acc.st.pending;
                assert forall|k: int| 0 <= k < (p + cl).len() implies (#[trigger] (p + cl)[k] == ' '
                    || (p + cl)[k] == '\t') by {
                    if k < p.len() {
                        assert((p + cl)[k] == p[k]);
                    } else {
                        assert((p + cl)[k] == cl[k - p.len()]);
                    }
                }
            }
        }
    }
}

pub proof fn lemma_scan_chars_ws(o: CleaningOptions, em: bool, acc: ClusterScan, g: Seq<char>, i: int)
    requires
        whitespace_only(acc.st.pending),
    ensures
        whitespace_only(scan_chars(o, em, acc, g, i).st.pending),
    decreases g.len() - i,
{
    if !(i >= g.len() || i < 0 || acc.direct) {
        let c0 = g[i];
        let (st3, c3) = map_char(o, acc.st, c0);
        assert(st3.pending == acc.st.pending);
        lemma_scan_chars_ws(o, em, scan_char(o, em, acc, c0), g, i + 1);
    }
}

/// The executable pass state.
pub struct Scanner {
    pub out: Vec<char>,
    pub pending: Vec<char>,
    pub cap_next: bool,
    pub drop_leading: bool,
    pub emitted: bool,
    pub changes: u64,
    pub stats: CleaningStats,
}

impl View for Scanner {
    type V = ScanState;

    open spec fn view(&self) -> ScanState {
        ScanState {
            out: self.out@,
            pending: self.pending@,
            cap_next: self.cap_next,
            drop_leading: self.drop_leading,
            emitted: self.emitted,
            changes: self.changes,
            stats: self.stats,
        }
    }
}

/// Bill `amount` changes to `f`.
fn record_scan(sc: &mut Scanner, f: StatField, amount: u64)
    ensures
        final(sc)@ == rec(old(sc)@, f, amount),
{
    record(&mut sc.changes, &mut sc.stats, f, amount);
}

/// Write the pending whitespace out, counting a collapse that rewrites it.
fn flush_exec(o: &CleaningOptions, sc: &mut Scanner)
    ensures
        final(sc)@ == flush_ws(*o, old(sc)@),
{
    let n = sc.pending.len();
    if n == 0 {
        assert(sc.out@ + ws_text(sc.pending@, o.collapse_whitespace) =~= sc.out@);
        return;
    }
    if o.collapse_whitespace {
        let single = n == 1 && sc.pending[0] == ' ';
        assert(single == (sc.pending@ == seq![' '])) by {
            if sc.pending@ == seq![' '] {
                assert(sc.pending@[0] == ' ');
            }
            if single {
                assert(sc.pending@ =~= seq![' ']);
            }
        }
        let ghost before = sc.out@;
        sc.out.push(' ');
        assert(sc.out@ =~= before + seq![' ']);
        if !single {
            record_scan(sc, StatField::SpacesNormalized, 1);
        }
    } else {
        let ghost before = sc.out@;
        let mut k: usize = 0;
        while k < n
            invariant
                k <= n,
                n == sc.pending.len(),
                sc.pending@ == old(sc).pending@,
                sc.changes == old(sc).changes,
                sc.stats == old(sc).stats,
                sc.cap_next == old(sc).cap_next,
                sc.drop_leading == old(sc).drop_leading,
                sc.emitted == old(sc).emitted,
                before == old(sc).out@,
                sc.out@ == before + sc.pending@.take(k as int),
            decreases n - k,
        {
            let c = sc.pending[k];
            sc.out.push(c);
            k = k + 1;
            assert(sc.out@ =~= before + sc.pending@.take(k as int));
        }
        assert(sc.pending@.take(n as int) =~= sc.pending@);
    }
}

/// Append `text` to `out`.
fn push_all(out: &mut Vec<char>, text: &Vec<char>)
    ensures
        final(out)@ == old(out)@ + text@,
{
    let mut k: usize = 0;
    while k < text.len()
        invariant
            k <= text.len(),
            out@ == old(out)@ + text@.take(k as int),
        decreases text.len() - k,
    {
        out.push(text[k]);
        k = k + 1;
        assert(out@ =~= old(out)@ + text@.take(k as int));
    }
    assert(text@.take(text.len() as int) =~= text@);
}

/// Emit `text` after the pending whitespace.
fn emit_text(o: &CleaningOptions, sc: &mut Scanner, text: &Vec<char>)
    ensures
        final(sc)@ == emit(*o, old(sc)@, text@),
        lf_only(old(sc)@.out) && lf_only(text@) && whitespace_only(old(sc)@.pending) ==> lf_only(
            final(sc)@.out,
        ),
{
    proof {
        if lf_only(sc@.out) && lf_only(text@) && whitespace_only(sc@.pending) {
            lemma_emit_lf(*o, sc@, text@);
        }
    }
    if sc.pending.len() > 0 && !(sc.drop_leading && !sc.emitted) {
        flush_exec(o, sc);
    }
    sc.pending = Vec::new();
    push_all(&mut sc.out, text);
    sc.emitted = true;
    sc.drop_leading = false;
}

/// Settle the pending whitespace before a line break.
fn break_line_exec(o: &CleaningOptions, sc: &mut Scanner)
    ensures
        final(sc)@ == break_line(*o, old(sc)@),
        lf_only(old(sc)@.out) && whitespace_only(old(sc)@.pending) ==> lf_only(final(sc)@.out),
{
    proof {
        if lf_only(sc@.out) && whitespace_only(sc@.pending) {
            lemma_flush_lf(*o, sc@);
        }
    }
    if o.remove_trailing_whitespace {
        if sc.pending.len() > 0 {
            let amount = sc.pending.len() as u64;
            record_scan(sc, StatField::TrailingWhitespaceRemoved, amount);
        }
        sc.pending = Vec::new();
        sc.cap_next = false;
    } else {
        flush_exec(o, sc);
        sc.pending = Vec::new();
        sc.cap_next = false;
    }
}

/// Whether cluster `g` renders as an emoji.
fn classify_emoji_cluster(g: &Vec<char>) -> (r: bool)
    ensures
        r == renders_as_emoji(g@),
{
    let mut has_presentation = false;
    let mut has_pictographic = false;
    let mut has_emoji = false;
    let mut has_vs16 = false;
    let mut has_zwj = false;
    let mut has_keycap = false;
    let mut i: usize = 0;
    while i < g.len()
        invariant
            i <= g.len(),
            has_presentation == (exists|j: int| 0 <= j < i && emoji_presentation(#[trigger] g@[j])),
            has_pictographic == (exists|j: int|
                0 <= j < i && extended_pictographic(#[trigger] g@[j])),
            has_emoji == (exists|j: int| 0 <= j < i && emoji_property(#[trigger] g@[j])),
            has_vs16 == (exists|j: int| 0 <= j < i && #[trigger] g@[j] == '\u{FE0F}'),
            has_zwj == (exists|j: int| 0 <= j < i && #[trigger] g@[j] == '\u{200D}'),
            has_keycap == (exists|j: int| 0 <= j < i && #[trigger] g@[j] == '\u{20E3}'),
        decreases g.len() - i,
    {
        let c = g[i];
        if has_emoji_presentation(c) {
            has_presentation = true;
        }
        if is_extended_pictographic(c) {
            has_pictographic = true;
        }
        if is_emoji(c) {
            has_emoji = true;
        }
        if c == '\u{FE0F}' {
            has_vs16 = true;
        } else if c == '\u{200D}' {
            has_zwj = true;
        } else if c == '\u{20E3}' {
            has_keycap = true;
        }
        i = i + 1;
    }
    has_presentation || has_pictographic || (has_emoji && (has_vs16 || has_zwj || has_keycap))
}

/// Whether all characters of `g` are ASCII.
fn is_all_ascii(g: &Vec<char>) -> (r: bool)
    ensures
        r == all_ascii(g@),
{
    let mut i: usize = 0;
    while i < g.len()
        invariant
            i <= g.len(),
            forall|j: int| 0 <= j < i ==> ascii_char(#[trigger] g@[j]),
        decreases g.len() - i,
    {
        if g[i] > '\u{7F}' {
            return false;
        }
        i = i + 1;
    }
    true
}

/// Whether the engine treats `g` as an emoji cluster.
fn is_emoji_cluster(o: &CleaningOptions, g: &Vec<char>) -> (r: bool)
    ensures
        r == emoji_cluster(*o, g@),
{
    if is_all_ascii(g) {
        return false;
    }
    if !o.keyboard_only && !o.remove_hidden {
        return false;
    }
    classify_emoji_cluster(g)
}

/// The view of a cluster scan.
pub open spec fn cluster_view(sc: ScanState, cluster: Seq<char>, hidden_here: u64, direct: bool) -> ClusterScan {
    ClusterScan { st: sc, cluster, hidden_here, direct }
}

/// The space/dash/quote normalizations of one character.
fn map_char_exec(o: &CleaningOptions, sc: &mut Scanner, c0: char) -> (c: char)
    ensures
        (final(sc)@, c) == map_char(*o, old(sc)@, c0),
{
    let mut c = c0;
    if o.normalize_spaces && is_space_separator(c) {
        record_scan(sc, StatField::SpacesNormalized, 1);
        c = ' ';
    }
    if o.normalize_dashes && is_dash_char(c) {
        if '-' != c {
            record_scan(sc, StatField::DashesNormalized, 1);
        }
        c = '-';
    }
    if o.normalize_quotes {
        if let Some(m) = map_quote(c) {
            if m != c {
                record_scan(sc, StatField::QuotesNormalized, 1);
            }
            c = m;
        }
    }
    c
}

/// One character of a cluster; returns whether the cluster was emitted directly.
fn scan_char_exec(
    o: &CleaningOptions,
    em: bool,
    sc: &mut Scanner,
    cluster: &mut Vec<char>,
    hidden_here: &mut u64,
    c0: char,
) -> (direct: bool)
    ensures
        cluster_view(final(sc)@, final(cluster)@, *final(hidden_here), direct) == scan_char(
            *o,
            em,
            cluster_view(old(sc)@, old(cluster)@, *old(hidden_here), false),
            c0,
        ),
{
    if o.remove_hidden && is_hidden_char(c0) {
        let keep = (o.preserve_joiners && is_joiner(c0)) || ((!o.keyboard_only || match o.emoji_policy {
            EmojiPolicy::Keep => true,
            EmojiPolicy::Drop => false,
        }) && em);
        if keep {
            cluster.push(c0);
        } else {
            record_scan(sc, StatField::HiddenCharsRemoved, 1);
            *hidden_here = hidden_here.saturating_add(1);
        }
        return false;
    }
    if o.remove_control_chars && is_disallowed_control(c0) {
        record_scan(sc, StatField::ControlCharsRemoved, 1);
        return false;
    }
    let c = map_char_exec(o, sc, c0);
    if o.normalize_other && c == FRACTION_SLASH {
        record_scan(sc, StatField::OtherNormalized, 1);
        cluster.push('/');
        return false;
    }
    if o.normalize_other && (c == HORIZONTAL_ELLIPSIS || c == MIDLINE_HORIZONTAL_ELLIPSIS) {
        let dots = vec!['.', '.', '.'];
        assert(dots@ =~= seq!['.', '.', '.']);
        emit_text(o, sc, &dots);
        record_scan(sc, StatField::OtherNormalized, 1);
        return true;
    }
    cluster.push(c);
    false
}

/// The characters of a cluster; returns the normalized cluster, the hidden
/// characters removed from it, and whether it was emitted directly.
fn scan_cluster_chars(o: &CleaningOptions, em: bool, sc: &mut Scanner, g: &Vec<char>) -> (r: (Vec<char>, u64, bool))
    ensures
        cluster_view(final(sc)@, r.0@, r.1, r.2) == scan_chars(
            *o,
            em,
            cluster_view(old(sc)@, Seq::empty(), 0, false),
            g@,
            0,
        ),
        lf_only(old(sc)@.out) && lf_only(g@) && whitespace_only(old(sc)@.pending) ==> lf_only(
            final(sc)@.out,
        ) && lf_only(r.0@),
        whitespace_only(old(sc)@.pending) ==> whitespace_only(final(sc)@.pending),
{
    proof {
        if lf_only(sc@.out) && lf_only(g@) && whitespace_only(sc@.pending) {
            lemma_scan_chars_lf(*o, em, cluster_view(sc@, Seq::empty(), 0, false), g@, 0);
        }
        if whitespace_only(sc@.pending) {
            lemma_scan_chars_ws(*o, em, cluster_view(sc@, Seq::empty(), 0, false), g@, 0);
        }
    }
    let mut cluster: Vec<char> = Vec::new();
    let mut hidden_here: u64 = 0;
    let mut direct = false;
    let mut i: usize = 0;
    while i < g.len() && !direct
        invariant
            i <= g.len(),
            scan_chars(*o, em, cluster_view(sc@, cluster@, hidden_here, direct), g@, i as int)
                == scan_chars(*o, em, cluster_view(old(sc)@, Seq::empty(), 0, false), g@, 0),
        decreases g.len() - i,
    {
        direct = scan_char_exec(o, em, sc, &mut cluster, &mut hidden_here, g[i]);
        i = i + 1;
    }
    (cluster, hidden_here, direct)
}

/// Whether the cluster holds only spaces and tabs.
fn is_whitespace_only(cl: &Vec<char>) -> (r: bool)
    ensures
        r == whitespace_only(cl@),
{
    let mut i: usize = 0;
    while i < cl.len()
        invariant
            i <= cl.len(),
            forall|j: int| 0 <= j < i ==> (#[trigger] cl@[j] == ' ' || cl@[j] == '\t'),
        decreases cl.len() - i,
    {
        if cl[i] != ' ' && cl[i] != '\t' {
            return false;
        }
        i = i + 1;
    }
    true
}

/// The number of characters of the cluster keyboard-only output does not keep.
fn count_non_keyboard(cl: &Vec<char>, ext: bool) -> (r: u64)
    ensures
        r == count_where(cl@, non_keyboard(ext)),
{
    let mut n: u64 = 0;
    let mut i: usize = 0;
    while i < cl.len()
        invariant
            i <= cl.len(),
            n == count_where(cl@.take(i as int), non_keyboard(ext)),
        decreases cl.len() - i,
    {
        proof {
            lemma_count_take(cl@, non_keyboard(ext), i as int);
            lemma_count_le_len(cl@.take(i as int), non_keyboard(ext));
        }
        if !is_keyboard_allowed(cl[i], ext) {
            n = n + 1;
        }
        i = i + 1;
    }
    assert(cl@.take(cl.len() as int) =~= cl@);
    n
}

/// Mark a cluster as dropped.
fn drop_cluster_exec(sc: &mut Scanner)
    ensures
        final(sc)@ == drop_cluster(old(sc)@),
{
    sc.cap_next = true;
    sc.drop_leading = sc.pending.len() == 0 && !sc.emitted;
    if sc.pending.len() > 0 {
        sc.pending = vec![' '];
        assert(sc.pending@ =~= seq![' ']);
    } else {
        assert(sc.pending@ =~= Seq::<char>::empty());
    }
}

/// Finish a cluster whose characters were processed.
fn finish_cluster_exec(
    o: &CleaningOptions,
    em: bool,
    sc: &mut Scanner,
    cl: Vec<char>,
    hidden_here: u64,
    direct: bool,
)
    ensures
        final(sc)@ == finish_cluster(*o, em, cluster_view(old(sc)@, cl@, hidden_here, direct)),
        lf_only(old(sc)@.out) && lf_only(cl@) && whitespace_only(old(sc)@.pending) ==> lf_only(
            final(sc)@.out,
        ),
{
    if direct || cl.len() == 0 {
        return;
    }
    if is_whitespace_only(&cl) {
        if sc.cap_next {
            sc.pending = vec![' '];
            assert(sc.pending@ =~= seq![' ']);
            sc.cap_next = false;
        } else {
            push_all(&mut sc.pending, &cl);
        }
        return;
    }
    if o.keyboard_only {
        let keep_emoji = match o.emoji_policy {
            EmojiPolicy::Keep => true,
            EmojiPolicy::Drop => false,
        };
        if em && keep_emoji {
            emit_text(o, sc, &cl);
            return;
        }
        let rewrite = rewrite_cluster_to_keyboard_ascii(&cl, o.non_ascii_policy, o.extended_keyboard);
        match rewrite {
            Some(w) => {
                if w.non_ascii_transliterated > 0 {
                    record_scan(sc, StatField::NonKeyboardTransliterated, w.non_ascii_transliterated);
                }
                if w.non_ascii_removed > 0 {
                    record_scan(sc, StatField::NonKeyboardRemoved, w.non_ascii_removed);
                }
                emit_text(o, sc, &w.text);
            },
            None => {
                if em {
                    if hidden_here > 0 {
                        sc.changes = sc.changes.saturating_sub(hidden_here);
                        sc.stats.hidden_chars_removed = sc.stats.hidden_chars_removed.saturating_sub(
                            hidden_here,
                        );
                    }
                    record_scan(sc, StatField::EmojisDropped, 1);
                    drop_cluster_exec(sc);
                } else {
                    let removed = count_non_keyboard(&cl, o.extended_keyboard);
                    if removed > 0 {
                        record_scan(sc, StatField::NonKeyboardRemoved, removed);
                    }
                    drop_cluster_exec(sc);
                }
            },
        }
    } else {
        emit_text(o, sc, &cl);
    }
}

/// One grapheme cluster of the pass.
fn step_exec(o: &CleaningOptions, sc: &mut Scanner, g: &Vec<char>)
    ensures
        final(sc)@ == step(*o, old(sc)@, g@),
        lf_only(old(sc)@.out) && lf_only(g@) && whitespace_only(old(sc)@.pending) ==> lf_only(
            final(sc)@.out,
        ),
        whitespace_only(old(sc)@.pending) ==> whitespace_only(final(sc)@.pending),
{
    proof {
        if whitespace_only(sc@.pending) {
            lemma_step_ws(*o, sc@, g@);
        }
    }
    if g.len() == 0 {
        return;
    }
    if (g.len() == 1 && (g[0] == '\n' || g[0] == '\r')) || (g.len() == 2 && g[0] == '\r' && g[1]
        == '\n') {
        break_line_exec(o, sc);
        let ghost before = sc.out@;
        push_all(&mut sc.out, g);
        proof {
            if lf_only(before) && lf_only(g@) {
                lemma_concat_lf(before, g@);
            }
        }
        sc.emitted = true;
        sc.drop_leading = false;
        return;
    }
    if o.normalize_spaces && o.normalize_line_endings.is_none() && g.len() == 1 && (g[0]
        == '\u{2028}' || g[0] == '\u{2029}') {
        break_line_exec(o, sc);
        let ghost before = sc.out@;
        sc.out.push('\n');
        assert(sc.out@ =~= before + seq!['\n']);
        proof {
            if lf_only(before) {
                lemma_concat_lf(before, seq!['\n']);
            }
        }
        record_scan(sc, StatField::SpacesNormalized, 1);
        sc.emitted = true;
        sc.drop_leading = false;
        return;
    }
    let em = is_emoji_cluster(o, g);
    let (cl, hidden_here, direct) = scan_cluster_chars(o, em, sc, g);
    finish_cluster_exec(o, em, sc, cl, hidden_here, direct);
}

/// Settle the whitespace left pending at the end of the text.
fn finish_text_exec(o: &CleaningOptions, sc: &mut Scanner)
    ensures
        final(sc)@ == finish_text(*o, old(sc)@),
        lf_only(old(sc)@.out) && whitespace_only(old(sc)@.pending) ==> lf_only(final(sc)@.out),
{
    proof {
        if lf_only(sc@.out) && whitespace_only(sc@.pending) {
            lemma_finish_text_lf(*o, sc@);
        }
    }
    if o.remove_trailing_whitespace {
        if sc.pending.len() > 0 {
            let amount = sc.pending.len() as u64;
            record_scan(sc, StatField::TrailingWhitespaceRemoved, amount);
        }
    } else if sc.pending.len() > 0 && !(sc.drop_leading && !sc.emitted) {
        flush_exec(o, sc);
    }
}

/// The pass over a sequence of grapheme clusters: each cluster stepped in
/// turn from the initial state, then the whitespace left pending settled.
pub fn clean_clusters(o: &CleaningOptions, clusters: &Vec<Vec<char>>, has_prior_output: bool) -> (r: Scanner)
    ensures
        r@ == finish_text(
            *o,
            fold_steps(*o, clusters@.map_values(|v: Vec<char>| v@), initial_state(has_prior_output), 0),
        ),
        (forall|j: int| 0 <= j < clusters.len() ==> lf_only(#[trigger] clusters[j]@)) ==> lf_only(
            r.out@,
        ),
{
    let ghost gs = clusters@.map_values(|v: Vec<char>| v@);
    let ghost all_lf = forall|j: int| 0 <= j < clusters.len() ==> lf_only(#[trigger] clusters[j]@);
    let mut sc = Scanner {
        out: Vec::new(),
        pending: Vec::new(),
        cap_next: false,
        drop_leading: false,
        emitted: has_prior_output,
        changes: 0,
        stats: CleaningStats::default(),
    };
    assert(sc@ == initial_state(has_prior_output));
    let mut i: usize = 0;
    while i < clusters.len()
        invariant
            i <= clusters.len(),
            gs == clusters@.map_values(|v: Vec<char>| v@),
            fold_steps(*o, gs, sc@, i as int) == fold_steps(
                *o,
                gs,
                initial_state(has_prior_output),
                0,
            ),
            all_lf == (forall|j: int| 0 <= j < clusters.len() ==> lf_only(#[trigger] clusters[j]@)),
            all_lf ==> lf_only(sc.out@),
            whitespace_only(sc.pending@),
        decreases clusters.len() - i,
    {
        assert(gs[i as int] == clusters[i as int]@);
        assert(all_lf ==> lf_only(clusters[i as int]@));
        step_exec(o, &mut sc, &clusters[i]);
        i = i + 1;
    }
    finish_text_exec(o, &mut sc);
    sc
}

/// Clean an already normalized text: the pass over its clusters, then
/// line-ending normalization.
pub fn clean_into_internal(o: &CleaningOptions, working: Vec<char>, has_prior_output: bool) -> (r: (Vec<char>, u64, CleaningStats))
    ensures
        (r.0@, r.1, r.2) == clean_core(*o, working@, has_prior_output),
        o.normalize_line_endings matches Some(style) ==> breaks_in_style(style, r.0@),
        r.1 == 0 ==> r.0@ == working@,
        crate::accounting::stats_total(r.2) + working@.len() <= u64::MAX ==> r.1 as int
            == crate::accounting::stats_total(r.2),
{
    let ghost source_text = working@;
    assert(source_text.len() == working.len());
    let mut counts = LineEndingCounts { crlf: 0, cr: 0, nel: 0, ls: 0, ps: 0 };
    let mut text = working;
    if o.normalize_line_endings.is_some() {
        let (lf, c) = to_lf(&text);
        counts = c;
        text = lf;
    }
    assert(text@ == pass_input(*o, source_text));
    assert(o.normalize_line_endings is Some ==> counts.tally() == lf_tally(source_text)
        && tally_total(counts.tally()) <= source_text.len());
    let gs = graphemes(&text);
    let ghost clusters = grapheme_clusters(text@);
    proof {
        assert(clusters =~= gs@.map_values(|v: Vec<char>| v@));
        crate::accounting::lemma_core_faithful(*o, source_text, has_prior_output);
        if crate::accounting::stats_total(clean_core(*o, source_text, has_prior_output).2)
            + source_text.len() <= u64::MAX {
            crate::accounting::lemma_core_exact(*o, source_text, has_prior_output);
        }
    }
    let ghost folding = o.normalize_line_endings is Some;
    proof {
        if folding {
            lemma_lf_text_clean(source_text);
            lemma_flatten_parts_lf(gs@.map_values(|v: Vec<char>| v@));
            assert forall|j: int| 0 <= j < gs.len() implies lf_only(#[trigger] gs[j]@) by {
                assert(gs@.map_values(|v: Vec<char>| v@)[j] == gs[j]@);
            }
        }
    }
    let mut sc = clean_clusters(o, &gs, has_prior_output);
    assert(sc@ == pass_result(*o, source_text, has_prior_output));
    match o.normalize_line_endings {
        Some(LineEndingStyle::Lf) => {
            let total = counts.total();
            if total > 0 {
                record_scan(&mut sc, StatField::LineEndingsNormalized, total);
            }
        },
        Some(style) => {
            let ghost folded_out = sc.out@;
            let restamp_changes = restamp_line_endings_mut(style, &mut sc.out);
            proof {
                lemma_restamp_style(style, folded_out);
            }
            let baseline = match style {
                LineEndingStyle::Crlf => counts.crlf,
                _ => counts.cr,
            };
            let net = restamp_changes.saturating_sub(baseline);
            if net > 0 {
                record_scan(&mut sc, StatField::LineEndingsNormalized, net);
            }
        },
        None => {},
    }
    (sc.out, sc.changes, sc.stats)
}

} // verus!
