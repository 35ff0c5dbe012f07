//! Line locality of the cleaning pass: a line break settles all whitespace
//! context, so what the pass writes after it does not depend on what came
//! before it. Also: the pass leaves text on the ASCII fast path as it is.

use vstd::prelude::*;
use crate::accounting::{lemma_core_faithful, lemma_expand_concat, lemma_rewritten_identity};
use crate::engine::{
    after_break, break_line, clean_core, drop_cluster, emit, finish_cluster, finish_text, flush_ws,
    fold_steps, initial_state, map_char, newline_grapheme, pass_input, pass_result, rec, rec_if,
    scan_char, scan_chars, separator_grapheme, step, ClusterScan, ScanState,
};
use crate::lines::{restamped, stamp_piece};
use crate::options::{CleaningOptions, LineEndingStyle, UnicodeNormalizationMode};
use crate::sets::{ascii_char, default_ignorable, fast_path_safe, keyboard_allowed};
use crate::stats::{zero_stats, StatField};
use crate::text::grapheme_clusters;
use crate::util::{count_where, expand};

verus! {

/// The scan state without its output and counts: the part that steers how
/// the rest of the text is written.
pub open spec fn steering(st: ScanState) -> ScanState {
    ScanState { out: Seq::empty(), changes: 0, stats: zero_stats(), ..st }
}

/// `a` steers like `b` and has written `prefix` followed by what `b` wrote.
pub open spec fn shifted(a: ScanState, b: ScanState, prefix: Seq<char>) -> bool {
    a.out == prefix + b.out && steering(a) == steering(b)
}

/// The cluster scans `a` and `b` agree but for an output shifted by `prefix`.
pub open spec fn shifted_scan(a: ClusterScan, b: ClusterScan, prefix: Seq<char>) -> bool {
    &&& shifted(a.st, b.st, prefix)
    &&& a.cluster == b.cluster
    &&& a.hidden_here == b.hidden_here
    &&& a.direct == b.direct
}

/// A cluster that ends a line in the pass under `o`.
pub open spec fn line_break_cluster(o: CleaningOptions, g: Seq<char>) -> bool {
    newline_grapheme(g) || (o.normalize_spaces && o.normalize_line_endings is None
        && separator_grapheme(g))
}

proof fn lemma_rec_shift(a: ScanState, b: ScanState, p: Seq<char>, f: StatField, n: u64)
    requires
        shifted(a, b, p),
    ensures
        shifted(rec(a, f, n), rec(b, f, n), p),
{
}

proof fn lemma_rec_if_shift(a: ScanState, b: ScanState, p: Seq<char>, f: StatField, n: nat)
    requires
        shifted(a, b, p),
    ensures
        shifted(rec_if(a, f, n), rec_if(b, f, n), p),
{
}

proof fn lemma_flush_shift(o: CleaningOptions, a: ScanState, b: ScanState, p: Seq<char>)
    requires
        shifted(a, b, p),
    ensures
        shifted(flush_ws(o, a), flush_ws(o, b), p),
{
    assert(a.pending == b.pending);
    let w = crate::engine::ws_text(a.pending, o.collapse_whitespace);
    assert(a.out + w =~= p + (b.out + w));
}

proof fn lemma_emit_shift(o: CleaningOptions, a: ScanState, b: ScanState, p: Seq<char>, t: Seq<char>)
    requires
        shifted(a, b, p),
    ensures
        shifted(emit(o, a, t), emit(o, b, t), p),
{
    assert(a.pending == b.pending && a.drop_leading == b.drop_leading && a.emitted == b.emitted);
    lemma_flush_shift(o, a, b, p);
    let a1 = if a.pending.len() > 0 && !(a.drop_leading && !a.emitted) {
        flush_ws(o, a)
    } else {
        a
    };
    let b1 = if b.pending.len() > 0 && !(b.drop_leading && !b.emitted) {
        flush_ws(o, b)
    } else {
        b
    };
    assert(shifted(a1, b1, p));
    assert(a1.out + t =~= p + (b1.out + t));
}

proof fn lemma_break_shift(o: CleaningOptions, a: ScanState, b: ScanState, p: Seq<char>)
    requires
        shifted(a, b, p),
    ensures
        shifted(break_line(o, a), break_line(o, b), p),
{
    assert(a.pending == b.pending);
    lemma_flush_shift(o, a, b, p);
    lemma_rec_shift(a, b, p, StatField::TrailingWhitespaceRemoved, a.pending.len() as u64);
}

proof fn lemma_after_break_shift(a: ScanState, b: ScanState, p: Seq<char>, t: Seq<char>)
    requires
        shifted(a, b, p),
    ensures
        shifted(after_break(a, t), after_break(b, t), p),
{
    assert(a.out + t =~= p + (b.out + t));
}

proof fn lemma_scan_char_shift(o: CleaningOptions, em: bool, a: ClusterScan, b: ClusterScan, p: Seq<char>, c0: char)
    requires
        shifted_scan(a, b, p),
    ensures
        shifted_scan(scan_char(o, em, a, c0), scan_char(o, em, b, c0), p),
{
    let (sa, ca) = map_char(o, a.st, c0);
    let (sb, cb) = map_char(o, b.st, c0);
    assert(ca == cb);
    assert(shifted(sa, sb, p));
    lemma_rec_shift(a.st, b.st, p, StatField::HiddenCharsRemoved, 1);
    lemma_rec_shift(a.st, b.st, p, StatField::ControlCharsRemoved, 1);
    lemma_rec_shift(sa, sb, p, StatField::OtherNormalized, 1);
    lemma_emit_shift(o, sa, sb, p, seq!['.', '.', '.']);
    lemma_rec_shift(
        emit(o, sa, seq!['.', '.', '.']),
        emit(o, sb, seq!['.', '.', '.']),
        p,
        StatField::OtherNormalized,
        1,
    );
}

proof fn lemma_scan_chars_shift(
    o: CleaningOptions,
    em: bool,
    a: ClusterScan,
    b: ClusterScan,
    p: Seq<char>,
    g: Seq<char>,
    i: int,
)
    requires
        shifted_scan(a, b, p),
    ensures
        shifted_scan(scan_chars(o, em, a, g, i), scan_chars(o, em, b, g, i), p),
    decreases g.len() - i,
{
    if !(i >= g.len() || i < 0 || a.direct) {
        lemma_scan_char_shift(o, em, a, b, p, g[i]);
        lemma_scan_chars_shift(o, em, scan_char(o, em, a, g[i]), scan_char(o, em, b, g[i]), p, g, i + 1);
    }
}

proof fn lemma_finish_cluster_shift(o: CleaningOptions, em: bool, a: ClusterScan, b: ClusterScan, p: Seq<char>)
    requires
        shifted_scan(a, b, p),
    ensures
        shifted(finish_cluster(o, em, a), finish_cluster(o, em, b), p),
{
    let sa = a.st;
    let sb = b.st;
    let cl = a.cluster;
    let pol = o.non_ascii_policy;
    let ext = o.extended_keyboard;
    assert(sa.pending == sb.pending && sa.cap_next == sb.cap_next);
    lemma_emit_shift(o, sa, sb, p, cl);
    let n1 = crate::util::count_where(cl, crate::rewrite::transliterated_pred(pol, ext));
    let n2 = crate::util::count_where(cl, crate::rewrite::removed_pred(pol, ext));
    lemma_rec_if_shift(sa, sb, p, StatField::NonKeyboardTransliterated, n1);
    let a1 = rec_if(sa, StatField::NonKeyboardTransliterated, n1);
    let b1 = rec_if(sb, StatField::NonKeyboardTransliterated, n1);
    lemma_rec_if_shift(a1, b1, p, StatField::NonKeyboardRemoved, n2);
    let a2 = rec_if(a1, StatField::NonKeyboardRemoved, n2);
    let b2 = rec_if(b1, StatField::NonKeyboardRemoved, n2);
    lemma_emit_shift(o, a2, b2, p, crate::rewrite::rewritten(pol, ext, cl));
    let hh = a.hidden_here;
    let a3 = if hh > 0 {
        ScanState {
            changes: sa.changes.saturating_sub(hh),
            stats: crate::stats::CleaningStats {
                hidden_chars_removed: sa.stats.hidden_chars_removed.saturating_sub(hh),
                ..sa.stats
            },
            ..sa
        }
    } else {
        sa
    };
    let b3 = if hh > 0 {
        ScanState {
            changes: sb.changes.saturating_sub(hh),
            stats: crate::stats::CleaningStats {
                hidden_chars_removed: sb.stats.hidden_chars_removed.saturating_sub(hh),
                ..sb.stats
            },
            ..sb
        }
    } else {
        sb
    };
    assert(shifted(a3, b3, p));
    lemma_rec_shift(a3, b3, p, StatField::EmojisDropped, 1);
    let n3 = crate::util::count_where(cl, crate::engine::non_keyboard(ext));
    lemma_rec_if_shift(sa, sb, p, StatField::NonKeyboardRemoved, n3);
    assert(shifted(
        drop_cluster(rec(a3, StatField::EmojisDropped, 1)),
        drop_cluster(rec(b3, StatField::EmojisDropped, 1)),
        p,
    ));
    assert(shifted(
        drop_cluster(rec_if(sa, StatField::NonKeyboardRemoved, n3)),
        drop_cluster(rec_if(sb, StatField::NonKeyboardRemoved, n3)),
        p,
    ));
}

proof fn lemma_step_shift(o: CleaningOptions, a: ScanState, b: ScanState, p: Seq<char>, g: Seq<char>)
    requires
        shifted(a, b, p),
    ensures
        shifted(step(o, a, g), step(o, b, g), p),
{
    lemma_break_shift(o, a, b, p);
    lemma_after_break_shift(break_line(o, a), break_line(o, b), p, g);
    lemma_rec_shift(break_line(o, a), break_line(o, b), p, StatField::SpacesNormalized, 1);
    lemma_after_break_shift(
        rec(break_line(o, a), StatField::SpacesNormalized, 1),
        rec(break_line(o, b), StatField::SpacesNormalized, 1),
        p,
        seq!['\n'],
    );
    let em = crate::engine::emoji_cluster(o, g);
    let a0 = ClusterScan { st: a, cluster: Seq::empty(), hidden_here: 0, direct: false };
    let b0 = ClusterScan { st: b, cluster: Seq::empty(), hidden_here: 0, direct: false };
    lemma_scan_chars_shift(o, em, a0, b0, p, g, 0);
    lemma_finish_cluster_shift(o, em, scan_chars(o, em, a0, g, 0), scan_chars(o, em, b0, g, 0), p);
}

proof fn lemma_fold_shift(o: CleaningOptions, gs: Seq<Seq<char>>, a: ScanState, b: ScanState, p: Seq<char>, i: int)
    requires
        shifted(a, b, p),
    ensures
        shifted(fold_steps(o, gs, a, i), fold_steps(o, gs, b, i), p),
    decreases gs.len() - i,
{
    if !(i >= gs.len() || i < 0) {
        lemma_step_shift(o, a, b, p, gs[i]);
        lemma_fold_shift(o, gs, step(o, a, gs[i]), step(o, b, gs[i]), p, i + 1);
    }
}

proof fn lemma_finish_text_shift(o: CleaningOptions, a: ScanState, b: ScanState, p: Seq<char>)
    requires
        shifted(a, b, p),
    ensures
        shifted(finish_text(o, a), finish_text(o, b), p),
{
    lemma_rec_if_shift(a, b, p, StatField::TrailingWhitespaceRemoved, a.pending.len());
    lemma_flush_shift(o, a, b, p);
}

/// Folding over clusters from index `i` of `gs1 + gs2` on, past the end of
/// `gs1`, is folding over `gs2`.
proof fn lemma_fold_tail(o: CleaningOptions, gs1: Seq<Seq<char>>, gs2: Seq<Seq<char>>, st: ScanState, i: int)
    requires
        gs1.len() <= i <= gs1.len() + gs2.len(),
    ensures
        fold_steps(o, gs1 + gs2, st, i) == fold_steps(o, gs2, st, i - gs1.len()),
    decreases gs1.len() + gs2.len() - i,
{
    if i < gs1.len() + gs2.len() {
        assert((gs1 + gs2)[i] == gs2[i - gs1.len()]);
        lemma_fold_tail(o, gs1, gs2, step(o, st, gs2[i - gs1.len()]), i + 1);
    }
}

/// Folding over `gs1 + gs2` is folding over `gs1`, then over `gs2`.
proof fn lemma_fold_concat(o: CleaningOptions, gs1: Seq<Seq<char>>, gs2: Seq<Seq<char>>, st: ScanState, i: int)
    requires
        0 <= i <= gs1.len(),
    ensures
        fold_steps(o, gs1 + gs2, st, i) == fold_steps(o, gs2, fold_steps(o, gs1, st, i), 0),
    decreases gs1.len() - i,
{
    if i == gs1.len() {
        lemma_fold_tail(o, gs1, gs2, st, i);
    } else {
        assert((gs1 + gs2)[i] == gs1[i]);
        lemma_fold_concat(o, gs1, gs2, step(o, st, gs1[i]), i + 1);
    }
}

/// The cleaning pass is line-local: cleaning clusters that start with a
/// complete line (a run of clusters whose last one is a line break) writes
/// what cleaning that line alone writes, followed by what cleaning the rest
/// alone writes when something was already emitted before it.
pub proof fn pass_is_line_local(
    o: CleaningOptions,
    line: Seq<Seq<char>>,
    rest: Seq<Seq<char>>,
    has_prior_output: bool,
)
    requires
        line.len() > 0,
        line_break_cluster(o, line.last()),
    ensures
        finish_text(o, fold_steps(o, line + rest, initial_state(has_prior_output), 0)).out
            == finish_text(o, fold_steps(o, line, initial_state(has_prior_output), 0)).out
            + finish_text(o, fold_steps(o, rest, initial_state(true), 0)).out,
{
    let init = initial_state(has_prior_output);
    let body = line.drop_last();
    let g = line.last();
    assert(line =~= body + seq![g]);
    lemma_fold_concat(o, body, seq![g], init, 0);
    let before = fold_steps(o, body, init, 0);
    let s1 = fold_steps(o, line, init, 0);
    assert(fold_steps(o, seq![g], step(o, before, g), 1) == step(o, before, g));
    assert(fold_steps(o, seq![g], before, 0) == step(o, before, g));
    assert(s1 == step(o, before, g));
    assert(steering(s1) == initial_state(true));
    assert(finish_text(o, s1) == s1);
    lemma_fold_concat(o, line, rest, init, 0);
    let fresh = initial_state(true);
    assert(shifted(s1, fresh, s1.out)) by {
        assert(s1.out =~= s1.out + fresh.out);
    }
    lemma_fold_shift(o, rest, s1, fresh, s1.out, 0);
    lemma_finish_text_shift(o, fold_steps(o, rest, s1, 0), fold_steps(o, rest, fresh, 0), s1.out);
}

/// A pass over clusters that ends with a line break has written something.
proof fn lemma_line_emits(o: CleaningOptions, line: Seq<Seq<char>>, h: bool)
    requires
        line.len() > 0,
        line_break_cluster(o, line.last()),
    ensures
        finish_text(o, fold_steps(o, line, initial_state(h), 0)).out.len() > 0,
{
    let body = line.drop_last();
    let g = line.last();
    assert(line =~= body + seq![g]);
    lemma_fold_concat(o, body, seq![g], initial_state(h), 0);
    let before = fold_steps(o, body, initial_state(h), 0);
    assert(fold_steps(o, seq![g], step(o, before, g), 1) == step(o, before, g));
    let s1 = step(o, before, g);
    assert(finish_text(o, s1) == s1);
    assert(s1.out.len() > 0);
}

/// A restamp of a non-empty text is non-empty.
proof fn lemma_restamp_nonempty(style: LineEndingStyle, s: Seq<char>)
    requires
        s.len() > 0,
    ensures
        restamped(style, s).len() > 0,
{
    assert(restamped(style, s) == expand(s.drop_last(), stamp_piece(style)) + stamp_piece(style)(s.last()));
}

/// The pass over a text is line-local: where the segmentation of what the
/// pass runs over splits after a line-break cluster ending the first part
/// (as UAX #29 always does after a line break), cleaning the whole writes
/// what cleaning the first part writes, which is not empty, followed by what
/// cleaning the second part writes after earlier output.
pub proof fn clean_core_is_line_local(o: CleaningOptions, a: Seq<char>, r: Seq<char>, h: bool)
    requires
        grapheme_clusters(pass_input(o, a + r)) == grapheme_clusters(pass_input(o, a))
            + grapheme_clusters(pass_input(o, r)),
        grapheme_clusters(pass_input(o, a)).len() > 0,
        line_break_cluster(o, grapheme_clusters(pass_input(o, a)).last()),
    ensures
        clean_core(o, a + r, h).0 == clean_core(o, a, h).0 + clean_core(o, r, true).0,
        clean_core(o, a, h).0.len() > 0,
{
    let ca = grapheme_clusters(pass_input(o, a));
    let cr = grapheme_clusters(pass_input(o, r));
    pass_is_line_local(o, ca, cr, h);
    lemma_line_emits(o, ca, h);
    let sa = pass_result(o, a, h);
    let sr = pass_result(o, r, true);
    assert(pass_result(o, a + r, h).out == sa.out + sr.out);
    match o.normalize_line_endings {
        Some(LineEndingStyle::Lf) => {},
        Some(style) => {
            lemma_expand_concat(sa.out, sr.out, stamp_piece(style));
            lemma_restamp_nonempty(style, sa.out);
        },
        None => {},
    }
}

/// Options under which ASCII text may take the fast path: no trimming,
/// collapsing, line-ending or Unicode normalization, or control removal.
pub open spec fn fast_path_options(o: CleaningOptions) -> bool {
    &&& !o.remove_trailing_whitespace
    &&& !o.collapse_whitespace
    &&& o.normalize_line_endings is None
    &&& !o.remove_control_chars
    &&& o.unicode_normalization == UnicodeNormalizationMode::Disabled
}

/// A character that fast-path text under `o` may hold.
pub open spec fn fast_char(o: CleaningOptions, c: char) -> bool {
    ascii_char(c) && (!o.keyboard_only || fast_path_safe(c))
}

/// No ASCII character is default-ignorable.
pub proof fn lemma_ascii_never_ignorable()
    ensures
        forall|c: char| ascii_char(c) ==> !default_ignorable(c),
{
}

/// What the pass may rely on for fast-path text under `o`.
pub open spec fn quiet_setting(o: CleaningOptions) -> bool {
    fast_path_options(o)
}

pub proof fn lemma_count_none(s: Seq<char>, p: spec_fn(char) -> bool)
    requires
        forall|i: int| 0 <= i < s.len() ==> !p(#[trigger] s[i]),
    ensures
        count_where(s, p) == 0,
    decreases s.len(),
{
    if s.len() > 0 {
        assert forall|i: int| 0 <= i < s.len() - 1 implies !p(#[trigger] s.drop_last()[i]) by {
            assert(s.drop_last()[i] == s[i]);
        }
        lemma_count_none(s.drop_last(), p);
    }
}

/// The characters of fast-path text go through a cluster scan as they are,
/// with nothing counted.
proof fn lemma_scan_chars_quiet(o: CleaningOptions, em: bool, acc: ClusterScan, g: Seq<char>, i: int)
    requires
        quiet_setting(o),
        0 <= i <= g.len(),
        forall|j: int| 0 <= j < g.len() ==> fast_char(o, #[trigger] g[j]),
        !acc.direct,
        acc.cluster == g.take(i),
    ensures
        scan_chars(o, em, acc, g, i) == (ClusterScan { cluster: g, ..acc }),
    decreases g.len() - i,
{
    if i >= g.len() {
        assert(g.take(i) =~= g);
    } else {
        let c0 = g[i];
        assert(fast_char(o, c0));
        lemma_ascii_never_ignorable();
        assert(!default_ignorable(c0));
        let next = scan_char(o, em, acc, c0);
        assert(map_char(o, acc.st, c0) == (acc.st, c0));
        assert(next == ClusterScan { cluster: acc.cluster.push(c0), ..acc });
        assert(acc.cluster.push(c0) =~= g.take(i + 1));
        lemma_scan_chars_quiet(o, em, next, g, i + 1);
    }
}

/// A step over a cluster of fast-path text counts nothing.
proof fn lemma_step_quiet(o: CleaningOptions, st: ScanState, g: Seq<char>)
    requires
        quiet_setting(o),
        forall|j: int| 0 <= j < g.len() ==> fast_char(o, #[trigger] g[j]),
    ensures
        step(o, st, g).changes == st.changes,
{
    if g.len() > 0 && !newline_grapheme(g) {
        assert(!separator_grapheme(g)) by {
            if separator_grapheme(g) {
                assert(fast_char(o, g[0]));
            }
        }
        let em = crate::engine::emoji_cluster(o, g);
        assert(!em) by {
            assert forall|j: int| 0 <= j < g.len() implies ascii_char(#[trigger] g[j]) by {
                assert(fast_char(o, g[j]));
            }
        }
        let acc0 = ClusterScan { st, cluster: Seq::empty(), hidden_here: 0, direct: false };
        assert(g.take(0) =~= Seq::<char>::empty());
        lemma_scan_chars_quiet(o, em, acc0, g, 0);
        let acc = scan_chars(o, em, acc0, g, 0);
        if o.keyboard_only && !crate::engine::whitespace_only(g) {
            let pol = o.non_ascii_policy;
            let ext = o.extended_keyboard;
            assert forall|j: int| 0 <= j < g.len() implies keyboard_allowed(#[trigger] g[j], ext) by {
                assert(fast_char(o, g[j]));
            }
            lemma_rewritten_identity(pol, ext, g);
            lemma_count_none(g, crate::rewrite::transliterated_pred(pol, ext));
            lemma_count_none(g, crate::rewrite::removed_pred(pol, ext));
        }
    }
}

/// A fold over clusters of fast-path text counts nothing.
proof fn lemma_fold_quiet(o: CleaningOptions, gs: Seq<Seq<char>>, st: ScanState, i: int)
    requires
        quiet_setting(o),
        forall|m: int, j: int|
            0 <= m < gs.len() && 0 <= j < gs[m].len() ==> fast_char(o, #[trigger] gs[m][j]),
    ensures
        fold_steps(o, gs, st, i).changes == st.changes,
    decreases gs.len() - i,
{
    if !(i >= gs.len() || i < 0) {
        assert forall|j: int| 0 <= j < gs[i].len() implies fast_char(o, #[trigger] gs[i][j]) by {}
        lemma_step_quiet(o, st, gs[i]);
        lemma_fold_quiet(o, gs, step(o, st, gs[i]), i + 1);
    }
}

/// The clusters of a flattening hold only characters of the flattened text.
proof fn lemma_flatten_chars(o: CleaningOptions, gs: Seq<Seq<char>>)
    requires
        forall|m: int| 0 <= m < gs.flatten().len() ==> fast_char(o, #[trigger] gs.flatten()[m]),
    ensures
        forall|m: int, j: int|
            0 <= m < gs.len() && 0 <= j < gs[m].len() ==> fast_char(o, #[trigger] gs[m][j]),
    decreases gs.len(),
{
    if gs.len() > 0 {
        let f = gs.flatten();
        let rest = gs.drop_first();
        assert(f == gs[0] + rest.flatten());
        assert forall|m: int| 0 <= m < rest.flatten().len() implies fast_char(
            o,
            #[trigger] rest.flatten()[m],
        ) by {
            assert(rest.flatten()[m] == f[gs[0].len() + m]);
        }
        lemma_flatten_chars(o, rest);
        assert forall|m: int, j: int| 0 <= m < gs.len() && 0 <= j < gs[m].len() implies fast_char(
            o,
            #[trigger] gs[m][j],
        ) by {
            if m == 0 {
                assert(gs[0][j] == f[j]);
            } else {
                assert(gs[m] == rest[m - 1]);
            }
        }
    }
}

/// The pass leaves text that takes the ASCII fast path as it is, however the
/// outside segmentation cuts that text into clusters (so long as they
/// concatenate back to it, as the segmentation's clusters do): the ASCII
/// fast path is only a shortcut.
pub proof fn pass_keeps_fast_path_text(o: CleaningOptions, t: Seq<char>, h: bool)
    requires
        crate::cleaner::ascii_fast_path(o, t),
        grapheme_clusters(t).flatten() == t,
        t.len() <= u64::MAX,
    ensures
        clean_core(o, t, h).0 == t,
{
    let gs = grapheme_clusters(pass_input(o, t));
    assert(pass_input(o, t) == t);
    assert forall|m: int| 0 <= m < gs.flatten().len() implies fast_char(o, #[trigger] gs.flatten()[m]) by {
        assert(gs.flatten()[m] == t[m]);
    }
    lemma_flatten_chars(o, gs);
    lemma_fold_quiet(o, gs, initial_state(h), 0);
    lemma_core_faithful(o, t, h);
}

} // verus!
