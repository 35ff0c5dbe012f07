//! Change accounting: every rewrite the pass makes is counted, so a pass that
//! reports no change gives back its input.

use vstd::prelude::*;
use crate::engine::{
    after_break, break_line, clean_core, collapses, drop_cluster, emit, emoji_cluster,
    finish_cluster, finish_text, flush_ws, fold_steps, initial_state, map_char, newline_grapheme,
    non_keyboard, pass_input, pass_result, rec, rec_if, scan_char, scan_chars, separator_grapheme,
    step, whitespace_only, ws_text, ClusterScan, ScanState,
};
use crate::lines::{lf_tally, lf_text, restamp_count, restamped, stamp_piece, tally_total, is_lf};
use crate::options::{CleaningOptions, EmojiPolicy, LineEndingStyle};
use crate::rewrite::{removed_pred, replacement, rewrite_piece, rewritten, transliterated_pred};
use crate::sets::keyboard_allowed;
use crate::stats::{bump, CleaningStats, StatField};
use crate::util::{count_where, expand};

verus! {

/// A state that reports no change has written out exactly `prefix`, with the
/// whitespace not yet written held as it was read.
pub open spec fn faithful(st: ScanState, prefix: Seq<char>) -> bool {
    st.changes == 0 ==> {
        &&& st.out + st.pending == prefix
        &&& !st.cap_next
        &&& !st.drop_leading
    }
}

proof fn lemma_rec_pos(st: ScanState, f: StatField, amount: u64)
    ensures
        st.changes > 0 || amount > 0 ==> rec(st, f, amount).changes > 0,
{
}

proof fn lemma_flush_pos(o: CleaningOptions, st: ScanState)
    ensures
        flush_ws(o, st).changes >= st.changes,
        collapses(o, st.pending) ==> flush_ws(o, st).changes > 0,
        !collapses(o, st.pending) ==> flush_ws(o, st).out == st.out + st.pending,
{
    if !collapses(o, st.pending) {
        assert(ws_text(st.pending, o.collapse_whitespace) == st.pending);
    }
}

proof fn lemma_emit_pos(o: CleaningOptions, st: ScanState, text: Seq<char>)
    ensures
        emit(o, st, text).changes >= st.changes,
{
    lemma_flush_pos(o, st);
}

proof fn lemma_scan_chars_pos(o: CleaningOptions, em: bool, acc: ClusterScan, g: Seq<char>, i: int)
    ensures
        scan_chars(o, em, acc, g, i).st.changes >= acc.st.changes,
    decreases g.len() - i,
{
    if !(i >= g.len() || i < 0 || acc.direct) {
        let c0 = g[i];
        let st3 = map_char(o, acc.st, c0).0;
        assert(st3.changes >= acc.st.changes);
        lemma_emit_pos(o, st3, seq!['.', '.', '.']);
        lemma_scan_chars_pos(o, em, scan_char(o, em, acc, c0), g, i + 1);
    }
}

/// A change, once reported, stays reported across a step.
proof fn lemma_step_pos(o: CleaningOptions, st: ScanState, g: Seq<char>)
    ensures
        st.changes > 0 ==> step(o, st, g).changes > 0,
{
    lemma_flush_pos(o, st);
    if g.len() > 0 && !newline_grapheme(g) && !(o.normalize_spaces
        && o.normalize_line_endings is None && separator_grapheme(g)) {
        let em = emoji_cluster(o, g);
        let acc0 = ClusterScan { st, cluster: Seq::empty(), hidden_here: 0, direct: false };
        lemma_scan_chars_pos(o, em, acc0, g, 0);
        let acc = scan_chars(o, em, acc0, g, 0);
        let a = acc.st;
        let p = o.non_ascii_policy;
        let ext = o.extended_keyboard;
        let s1 = rec_if(a, StatField::NonKeyboardTransliterated, count_where(acc.cluster, transliterated_pred(p, ext)));
        let s2 = rec_if(s1, StatField::NonKeyboardRemoved, count_where(acc.cluster, removed_pred(p, ext)));
        lemma_emit_pos(o, a, acc.cluster);
        lemma_emit_pos(o, s2, rewritten(p, ext, acc.cluster));
    }
}

/// A count of zero means no character satisfies the predicate.
proof fn lemma_count_zero(s: Seq<char>, p: spec_fn(char) -> bool)
    requires
        count_where(s, p) == 0,
    ensures
        forall|i: int| 0 <= i < s.len() ==> !p(#[trigger] s[i]),
    decreases s.len(),
{
    if s.len() > 0 {
        lemma_count_zero(s.drop_last(), p);
        assert forall|i: int| 0 <= i < s.len() implies !p(#[trigger] s[i]) by {
            if i < s.len() - 1 {
                assert(s[i] == s.drop_last()[i]);
            }
        }
    }
}

/// A keyboard-only rewrite leaves a cluster of keyboard characters as it is.
pub proof fn lemma_rewritten_identity(p: crate::options::NonAsciiPolicy, ext: bool, cl: Seq<char>)
    requires
        forall|i: int| 0 <= i < cl.len() ==> keyboard_allowed(#[trigger] cl[i], ext),
    ensures
        rewritten(p, ext, cl) == cl,
    decreases cl.len(),
{
    if cl.len() > 0 {
        let init = cl.drop_last();
        assert forall|i: int| 0 <= i < init.len() implies keyboard_allowed(#[trigger] init[i], ext) by {
            assert(init[i] == cl[i]);
        }
        lemma_rewritten_identity(p, ext, init);
        assert(keyboard_allowed(cl.last(), ext));
        assert(rewrite_piece(p, ext)(cl.last()) == seq![cl.last()]);
        assert(init.push(cl.last()) =~= cl);
    }
}

/// Emitting without reporting a change writes the pending whitespace as read,
/// then the text.
proof fn lemma_emit_faithful(o: CleaningOptions, st: ScanState, text: Seq<char>, prefix: Seq<char>)
    requires
        faithful(st, prefix),
        st.changes == 0,
    ensures
        faithful(emit(o, st, text), prefix + text),
{
    lemma_flush_pos(o, st);
    let e = emit(o, st, text);
    if e.changes == 0 {
        if st.pending.len() > 0 {
            assert(!collapses(o, st.pending));
        } else {
            assert(st.out + st.pending =~= st.out);
        }
        assert(e.out + e.pending =~= prefix + text);
    }
}

/// Scanning a cluster's characters without reporting a change leaves the
/// state as it was and the cluster as it was read.
proof fn lemma_scan_chars_faithful(o: CleaningOptions, em: bool, acc: ClusterScan, g: Seq<char>, i: int)
    requires
        0 <= i <= g.len(),
        !acc.direct,
        acc.cluster == g.take(i),
        acc.st.changes == 0,
        scan_chars(o, em, acc, g, i).st.changes == 0,
    ensures
        scan_chars(o, em, acc, g, i).st == acc.st,
        scan_chars(o, em, acc, g, i).cluster == g,
        !scan_chars(o, em, acc, g, i).direct,
    decreases g.len() - i,
{
    if i >= g.len() {
        assert(g.take(i) =~= g);
    } else {
        let c0 = g[i];
        let next = scan_char(o, em, acc, c0);
        lemma_scan_chars_pos(o, em, next, g, i + 1);
        let (st3, c3) = map_char(o, acc.st, c0);
        lemma_emit_pos(o, st3, seq!['.', '.', '.']);
        assert(next.st.changes == 0);
        assert(st3.changes == 0 ==> st3 == acc.st && c3 == c0);
        assert(next.st == acc.st);
        assert(!next.direct);
        assert(next.cluster == acc.cluster.push(c0));
        assert(acc.cluster.push(c0) =~= g.take(i + 1));
        lemma_scan_chars_faithful(o, em, next, g, i + 1);
    }
}

/// A step that reports no change appends its cluster to what was written.
proof fn lemma_step_faithful(o: CleaningOptions, st: ScanState, g: Seq<char>, prefix: Seq<char>)
    requires
        faithful(st, prefix),
        prefix.len() + g.len() <= u64::MAX,
    ensures
        faithful(step(o, st, g), prefix + g),
{
    let r = step(o, st, g);
    lemma_step_pos(o, st, g);
    if r.changes == 0 {
        assert(st.changes == 0);
        assert(st.out + st.pending == prefix);
        assert(st.pending.len() <= prefix.len());
        lemma_flush_pos(o, st);
        if g.len() == 0 {
            assert(prefix + g =~= prefix);
        } else if newline_grapheme(g) {
            let b = break_line(o, st);
            if o.remove_trailing_whitespace {
                if st.pending.len() > 0 {
                    lemma_rec_pos(st, StatField::TrailingWhitespaceRemoved, st.pending.len() as u64);
                    assert(false);
                }
                assert(st.pending =~= Seq::<char>::empty());
                assert(b == st);
            } else {
                assert(!collapses(o, st.pending));
                assert(b.out == st.out + st.pending);
            }
            assert(r == after_break(b, g));
            assert(r.out =~= prefix + g);
            assert(r.out + r.pending =~= prefix + g);
        } else if o.normalize_spaces && o.normalize_line_endings is None && separator_grapheme(g) {
            let b = break_line(o, st);
            lemma_rec_pos(b, StatField::SpacesNormalized, 1);
            assert(false);
        } else {
            let em = emoji_cluster(o, g);
            let acc0 = ClusterScan { st, cluster: Seq::empty(), hidden_here: 0, direct: false };
            let acc = scan_chars(o, em, acc0, g, 0);
            assert(r == finish_cluster(o, em, acc));
            lemma_finish_pos(o, em, acc);
            assert(g.take(0) =~= Seq::<char>::empty());
            lemma_scan_chars_faithful(o, em, acc0, g, 0);
            lemma_finish_faithful(o, em, acc, prefix);
        }
    }
}

/// A reported change stays reported when a cluster is finished.
proof fn lemma_finish_pos(o: CleaningOptions, em: bool, acc: ClusterScan)
    ensures
        acc.st.changes > 0 ==> finish_cluster(o, em, acc).changes > 0,
{
    let a = acc.st;
    let p = o.non_ascii_policy;
    let ext = o.extended_keyboard;
    let s1 = rec_if(a, StatField::NonKeyboardTransliterated, count_where(acc.cluster, transliterated_pred(p, ext)));
    let s2 = rec_if(s1, StatField::NonKeyboardRemoved, count_where(acc.cluster, removed_pred(p, ext)));
    lemma_emit_pos(o, a, acc.cluster);
    lemma_emit_pos(o, s2, rewritten(p, ext, acc.cluster));
}

/// Finishing a cluster without reporting a change appends it as read.
proof fn lemma_finish_faithful(o: CleaningOptions, em: bool, acc: ClusterScan, prefix: Seq<char>)
    requires
        acc.st.changes == 0,
        faithful(acc.st, prefix),
        !acc.direct,
        acc.cluster.len() > 0,
        prefix.len() + acc.cluster.len() <= u64::MAX,
    ensures
        faithful(finish_cluster(o, em, acc), prefix + acc.cluster),
{
    let r = finish_cluster(o, em, acc);
    let st = acc.st;
    let g = acc.cluster;
    let p = o.non_ascii_policy;
    let ext = o.extended_keyboard;
    lemma_emit_faithful(o, st, g, prefix);
    if r.changes == 0 && !whitespace_only(g) && o.keyboard_only && !(em && o.emoji_policy
        == EmojiPolicy::Keep) {
        let n1 = count_where(g, transliterated_pred(p, ext));
        let n2 = count_where(g, removed_pred(p, ext));
        crate::util::lemma_count_le_len(g, transliterated_pred(p, ext));
        crate::util::lemma_count_le_len(g, removed_pred(p, ext));
        let s1 = rec_if(st, StatField::NonKeyboardTransliterated, n1);
        let s2 = rec_if(s1, StatField::NonKeyboardRemoved, n2);
        if rewritten(p, ext, g).len() > 0 {
            lemma_emit_pos(o, s2, rewritten(p, ext, g));
            if n1 > 0 {
                lemma_rec_pos(st, StatField::NonKeyboardTransliterated, n1 as u64);
            }
            if n2 > 0 {
                lemma_rec_pos(s1, StatField::NonKeyboardRemoved, n2 as u64);
            }
            assert(n1 == 0 && n2 == 0);
            lemma_count_zero(g, transliterated_pred(p, ext));
            lemma_count_zero(g, removed_pred(p, ext));
            assert forall|k: int| 0 <= k < g.len() implies keyboard_allowed(#[trigger] g[k], ext) by {
                assert(!(transliterated_pred(p, ext))(g[k]));
                assert(!(removed_pred(p, ext))(g[k]));
            }
            lemma_rewritten_identity(p, ext, g);
            assert(s2 == st);
        } else if !em {
            let n3 = count_where(g, non_keyboard(ext));
            crate::util::lemma_count_le_len(g, non_keyboard(ext));
            if n3 > 0 {
                lemma_rec_pos(st, StatField::NonKeyboardRemoved, n3 as u64);
                assert(false);
            }
            lemma_count_zero(g, non_keyboard(ext));
            assert forall|k: int| 0 <= k < g.len() implies keyboard_allowed(#[trigger] g[k], ext) by {
                assert(!(non_keyboard(ext))(g[k]));
            }
            lemma_rewritten_identity(p, ext, g);
            assert(false);
        }
    }
    if r.changes == 0 && whitespace_only(g) {
        assert(r.out + r.pending =~= prefix + g);
    }
}

/// The fold over clusters that reports no change writes out their concatenation.
proof fn lemma_fold_faithful(
    o: CleaningOptions,
    gs: Seq<Seq<char>>,
    st: ScanState,
    i: int,
    prefix: Seq<char>,
)
    requires
        0 <= i <= gs.len(),
        faithful(st, prefix),
        prefix.len() + gs.subrange(i, gs.len() as int).flatten().len() <= u64::MAX,
    ensures
        faithful(fold_steps(o, gs, st, i), prefix + gs.subrange(i, gs.len() as int).flatten()),
    decreases gs.len() - i,
{
    let rest = gs.subrange(i, gs.len() as int);
    if i == gs.len() {
        assert(rest =~= Seq::<Seq<char>>::empty());
        assert(prefix + rest.flatten() =~= prefix);
    } else {
        assert(rest.drop_first() =~= gs.subrange(i + 1, gs.len() as int));
        assert(rest.first() == gs[i]);
        assert(rest.flatten() == gs[i] + gs.subrange(i + 1, gs.len() as int).flatten());
        lemma_step_faithful(o, st, gs[i], prefix);
        lemma_fold_faithful(o, gs, step(o, st, gs[i]), i + 1, prefix + gs[i]);
        assert(prefix + rest.flatten() =~= (prefix + gs[i]) + gs.subrange(i + 1, gs.len() as int).flatten());
    }
}

/// Folding line breaks to LF changes nothing when it converts nothing.
proof fn lemma_lf_text_identity(s: Seq<char>)
    requires
        tally_total(lf_tally(s)) == 0,
    ensures
        lf_text(s) == s,
    decreases s.len(),
{
    if s.len() > 0 {
        let rest = s.drop_first();
        assert(!(s[0] == '\r' || s[0] == '\u{85}' || s[0] == '\u{2028}' || s[0] == '\u{2029}'));
        lemma_lf_text_identity(rest);
        assert(seq![s[0]] + rest =~= s);
    }
}

proof fn lemma_count_concat(a: Seq<char>, b: Seq<char>, p: spec_fn(char) -> bool)
    ensures
        count_where(a + b, p) == count_where(a, p) + count_where(b, p),
    decreases b.len(),
{
    if b.len() == 0 {
        assert(a + b =~= a);
    } else {
        lemma_count_concat(a, b.drop_last(), p);
        assert((a + b).drop_last() =~= a + b.drop_last());
    }
}

pub proof fn lemma_expand_concat(a: Seq<char>, b: Seq<char>, f: spec_fn(char) -> Seq<char>)
    ensures
        expand(a + b, f) == expand(a, f) + expand(b, f),
    decreases b.len(),
{
    if b.len() == 0 {
        assert(a + b =~= a);
        assert(expand(a, f) + expand(b, f) =~= expand(a, f));
    } else {
        lemma_expand_concat(a, b.drop_last(), f);
        assert((a + b).drop_last() =~= a + b.drop_last());
        assert(expand(a + b, f) =~= expand(a, f) + expand(b, f));
    }
}

/// Each conversion of line-feed folding leaves a line feed.
proof fn lemma_expand_single(c: char, f: spec_fn(char) -> Seq<char>)
    ensures
        expand(seq![c], f) == f(c),
{
    reveal_with_fuel(expand, 2);
    assert(seq![c].drop_last() =~= Seq::<char>::empty());
    assert(seq![c].last() == c);
    assert(Seq::<char>::empty() + f(c) =~= f(c));
}

proof fn lemma_lf_count_ge_tally(s: Seq<char>)
    ensures
        count_where(lf_text(s), is_lf()) >= tally_total(lf_tally(s)),
        lf_text(s).len() <= s.len(),
    decreases s.len(),
{
    if s.len() > 0 {
        if s[0] == '\r' && s.len() > 1 && s[1] == '\n' {
            let rest = s.subrange(2, s.len() as int);
            lemma_lf_count_ge_tally(rest);
            lemma_count_concat(seq!['\n'], lf_text(rest), is_lf());
        } else {
            let rest = s.drop_first();
            lemma_lf_count_ge_tally(rest);
            lemma_count_concat(seq!['\n'], lf_text(rest), is_lf());
            lemma_count_concat(seq![s[0]], lf_text(rest), is_lf());
        }
    }
}

/// Restamping the folded text gives back the input when the input's line
/// breaks were all in `style` already.
proof fn lemma_restamp_identity(style: LineEndingStyle, s: Seq<char>)
    requires
        style != LineEndingStyle::Lf,
        count_where(lf_text(s), is_lf()) <= (if style == LineEndingStyle::Crlf {
            lf_tally(s).crlf
        } else {
            lf_tally(s).cr
        }),
    ensures
        restamped(style, lf_text(s)) == s,
    decreases s.len(),
{
    if s.len() == 0 {
        assert(restamped(style, lf_text(s)) =~= s);
    } else if s[0] == '\r' && s.len() > 1 && s[1] == '\n' {
        let rest = s.subrange(2, s.len() as int);
        lemma_lf_count_ge_tally(rest);
        lemma_count_concat(seq!['\n'], lf_text(rest), is_lf());
        lemma_restamp_identity(style, rest);
        lemma_expand_concat(seq!['\n'], lf_text(rest), stamp_piece(style));
        lemma_expand_single('\n', stamp_piece(style));
        assert(seq!['\r', '\n'] + rest =~= s);
    } else {
        let rest = s.drop_first();
        lemma_lf_count_ge_tally(rest);
        lemma_count_concat(seq!['\n'], lf_text(rest), is_lf());
        lemma_count_concat(seq![s[0]], lf_text(rest), is_lf());
        let c = s[0];
        let head = if c == '\r' || c == '\u{85}' || c == '\u{2028}' || c == '\u{2029}' {
            seq!['\n']
        } else {
            seq![c]
        };
        assert(lf_text(s) == head + lf_text(rest));
        lemma_restamp_identity(style, rest);
        lemma_expand_concat(head, lf_text(rest), stamp_piece(style));
        lemma_expand_single(head[0], stamp_piece(style));
        assert(head == seq![head[0]]);
        assert(seq![c] + rest =~= s);
    }
}

/// A cleaning pass that reports no change returns its input: whitespace is
/// written as read (tabs included), and every rewrite (hidden or control
/// characters removed, spaces, dashes, quotes or other characters normalized,
/// whitespace trimmed or collapsed, line endings converted, characters
/// rewritten or dropped in keyboard-only mode, emoji dropped) is counted.
pub proof fn lemma_core_faithful(o: CleaningOptions, working: Seq<char>, has_prior_output: bool)
    requires
        grapheme_clusters_of(o, working).flatten() == pass_input(o, working),
        working.len() <= u64::MAX,
    ensures
        clean_core(o, working, has_prior_output).1 == 0 ==> clean_core(o, working, has_prior_output).0
            == working,
{
    let gs = grapheme_clusters_of(o, working);
    let init = initial_state(has_prior_output);
    lemma_lf_count_ge_tally(working);
    assert(pass_input(o, working).len() <= working.len());
    assert(faithful(init, Seq::empty())) by {
        assert(Seq::<char>::empty() + Seq::<char>::empty() =~= Seq::<char>::empty());
    }
    assert(gs.subrange(0, gs.len() as int) =~= gs);
    lemma_fold_faithful(o, gs, init, 0, Seq::empty());
    assert(gs.subrange(0, gs.len() as int) =~= gs);
    assert(Seq::<char>::empty() + gs.flatten() =~= gs.flatten());
    let folded = fold_steps(o, gs, init, 0);
    let st = pass_result(o, working, has_prior_output);
    assert(st == finish_text(o, folded));
    let input = pass_input(o, working);
    lemma_flush_pos(o, folded);
    // The final whitespace is written as read, or counted.
    if st.changes == 0 {
        assert(folded.changes == 0);
        if o.remove_trailing_whitespace {
            assert(folded.pending.len() <= input.len());
            if folded.pending.len() > 0 {
                lemma_rec_pos(folded, StatField::TrailingWhitespaceRemoved, folded.pending.len() as u64);
                assert(false);
            }
            assert(folded.out + folded.pending =~= folded.out);
        } else if folded.pending.len() > 0 {
            assert(!collapses(o, folded.pending));
        } else {
            assert(folded.out + folded.pending =~= folded.out);
        }
        assert(st.out == input);
    }
    let tally = lf_tally(working);
    let c = clean_core(o, working, has_prior_output);
    match o.normalize_line_endings {
        Some(LineEndingStyle::Lf) => {
            if c.1 == 0 {
                lemma_lf_count_ge_tally(working);
                crate::util::lemma_count_le_len(lf_text(working), is_lf());
                lemma_rec_pos(st, StatField::LineEndingsNormalized, tally_total(tally) as u64);
                assert(tally_total(tally) == 0);
                lemma_lf_text_identity(working);
            }
        },
        Some(style) => {
            if c.1 == 0 {
                let baseline = if style == LineEndingStyle::Crlf {
                    tally.crlf
                } else {
                    tally.cr
                };
                let net = (restamp_count(style, st.out) as u64).saturating_sub(baseline as u64);
                lemma_rec_pos(st, StatField::LineEndingsNormalized, net);
                assert(net == 0);
                assert(st.changes == 0);
                lemma_lf_count_ge_tally(working);
                crate::util::lemma_count_le_len(lf_text(working), is_lf());
                assert(restamp_count(style, st.out) <= baseline);
                lemma_restamp_identity(style, working);
            }
        },
        None => {},
    }
}

/// The clusters the pass runs over.
pub open spec fn grapheme_clusters_of(o: CleaningOptions, working: Seq<char>) -> Seq<Seq<char>> {
    crate::text::grapheme_clusters(pass_input(o, working))
}

/// The sum of all per-kind counters.
pub open spec fn stats_total(s: CleaningStats) -> int {
    s.hidden_chars_removed + s.trailing_whitespace_removed + s.spaces_normalized
        + s.dashes_normalized + s.quotes_normalized + s.other_normalized
        + s.control_chars_removed + s.line_endings_normalized + s.non_keyboard_removed
        + s.non_keyboard_transliterated + s.emojis_dropped
}

/// The change total equals the counter sum.
pub open spec fn exact(st: ScanState) -> bool {
    st.changes as int == stats_total(st.stats)
}

/// Billing a change never lowers the counter sum, and keeps the total equal
/// to it while the sum fits in `u64`.
pub proof fn lemma_bump_exact(changes: u64, s: CleaningStats, f: StatField, amount: u64)
    ensures
        stats_total(bump(s, f, amount)) >= stats_total(s),
        changes as int == stats_total(s) && stats_total(bump(s, f, amount)) <= u64::MAX ==> changes.saturating_add(amount) as int
            == stats_total(bump(s, f, amount)),
{
    match f {
        StatField::HiddenCharsRemoved => {},
        StatField::TrailingWhitespaceRemoved => {},
        StatField::SpacesNormalized => {},
        StatField::DashesNormalized => {},
        StatField::QuotesNormalized => {},
        StatField::OtherNormalized => {},
        StatField::ControlCharsRemoved => {},
        StatField::LineEndingsNormalized => {},
        StatField::NonKeyboardRemoved => {},
        StatField::NonKeyboardTransliterated => {},
        StatField::EmojisDropped => {},
    }
}

proof fn lemma_rec_exact(st: ScanState, f: StatField, amount: u64)
    ensures
        stats_total(rec(st, f, amount).stats) >= stats_total(st.stats),
        rec(st, f, amount).stats.hidden_chars_removed >= st.stats.hidden_chars_removed,
        exact(st) && stats_total(rec(st, f, amount).stats) <= u64::MAX ==> exact(rec(st, f, amount)),
{
    lemma_bump_exact(st.changes, st.stats, f, amount);
}

proof fn lemma_flush_exact(o: CleaningOptions, st: ScanState)
    ensures
        stats_total(flush_ws(o, st).stats) >= stats_total(st.stats),
        flush_ws(o, st).stats.hidden_chars_removed == st.stats.hidden_chars_removed,
        exact(st) && stats_total(flush_ws(o, st).stats) <= u64::MAX ==> exact(flush_ws(o, st)),
{
    let st1 = ScanState { out: st.out + ws_text(st.pending, o.collapse_whitespace), ..st };
    lemma_rec_exact(st1, StatField::SpacesNormalized, 1);
}

proof fn lemma_emit_exact(o: CleaningOptions, st: ScanState, text: Seq<char>)
    ensures
        stats_total(emit(o, st, text).stats) >= stats_total(st.stats),
        emit(o, st, text).stats.hidden_chars_removed == st.stats.hidden_chars_removed,
        exact(st) && stats_total(emit(o, st, text).stats) <= u64::MAX ==> exact(emit(o, st, text)),
{
    lemma_flush_exact(o, st);
}

proof fn lemma_map_char_exact(o: CleaningOptions, st: ScanState, c0: char)
    ensures
        stats_total(map_char(o, st, c0).0.stats) >= stats_total(st.stats),
        map_char(o, st, c0).0.stats.hidden_chars_removed == st.stats.hidden_chars_removed,
        exact(st) && stats_total(map_char(o, st, c0).0.stats) <= u64::MAX ==> exact(
            map_char(o, st, c0).0,
        ),
{
    let spaced = o.normalize_spaces && crate::tables::space_separator(c0);
    let c1 = if spaced { ' ' } else { c0 };
    lemma_rec_exact(st, StatField::SpacesNormalized, 1);
    let st1 = if spaced { rec(st, StatField::SpacesNormalized, 1) } else { st };
    lemma_rec_exact(st1, StatField::DashesNormalized, 1);
    let st2 = if o.normalize_dashes && crate::tables::dash_char(c1) && '-' != c1 {
        rec(st1, StatField::DashesNormalized, 1)
    } else {
        st1
    };
    lemma_rec_exact(st2, StatField::QuotesNormalized, 1);
}

/// The hidden characters a cluster scan removed are among the hidden counter.
pub open spec fn hidden_covered(acc: ClusterScan) -> bool {
    acc.hidden_here <= acc.st.stats.hidden_chars_removed
}

proof fn lemma_scan_chars_exact(o: CleaningOptions, em: bool, acc: ClusterScan, g: Seq<char>, i: int)
    requires
        0 <= i <= g.len(),
    ensures
        stats_total(scan_chars(o, em, acc, g, i).st.stats) >= stats_total(acc.st.stats),
        scan_chars(o, em, acc, g, i).hidden_here <= acc.hidden_here + (g.len() - i),
        exact(acc.st) && hidden_covered(acc) && stats_total(scan_chars(o, em, acc, g, i).st.stats)
            <= u64::MAX ==> exact(scan_chars(o, em, acc, g, i).st) && hidden_covered(
            scan_chars(o, em, acc, g, i),
        ),
    decreases g.len() - i,
{
    if !(i >= g.len() || i < 0 || acc.direct) {
        let c0 = g[i];
        let st = acc.st;
        let next = scan_char(o, em, acc, c0);
        lemma_rec_exact(st, StatField::HiddenCharsRemoved, 1);
        lemma_rec_exact(st, StatField::ControlCharsRemoved, 1);
        lemma_map_char_exact(o, st, c0);
        let st3 = map_char(o, st, c0).0;
        lemma_rec_exact(st3, StatField::OtherNormalized, 1);
        lemma_emit_exact(o, st3, seq!['.', '.', '.']);
        lemma_rec_exact(emit(o, st3, seq!['.', '.', '.']), StatField::OtherNormalized, 1);
        lemma_scan_chars_exact(o, em, next, g, i + 1);
        assert(stats_total(next.st.stats) >= stats_total(st.stats));
        assert(next.hidden_here <= acc.hidden_here + 1);
        if exact(st) && hidden_covered(acc) && stats_total(scan_chars(o, em, acc, g, i).st.stats)
            <= u64::MAX {
            assert(stats_total(next.st.stats) <= u64::MAX);
            assert(exact(next.st));
            assert(hidden_covered(next));
        }
    }
}

/// A step lowers the counter sum by less than the cluster's length, and keeps
/// the total equal to the sum while that fits in `u64`.
proof fn lemma_step_exact(o: CleaningOptions, st: ScanState, g: Seq<char>)
    ensures
        stats_total(step(o, st, g).stats) + g.len() >= stats_total(st.stats),
        exact(st) && stats_total(step(o, st, g).stats) + g.len() <= u64::MAX ==> exact(
            step(o, st, g),
        ),
{
    lemma_rec_exact(st, StatField::TrailingWhitespaceRemoved, st.pending.len() as u64);
    lemma_flush_exact(o, st);
    let b = break_line(o, st);
    lemma_rec_exact(b, StatField::SpacesNormalized, 1);
    if g.len() > 0 && !newline_grapheme(g) && !(o.normalize_spaces
        && o.normalize_line_endings is None && separator_grapheme(g)) {
        let em = emoji_cluster(o, g);
        let acc0 = ClusterScan { st, cluster: Seq::empty(), hidden_here: 0, direct: false };
        lemma_scan_chars_exact(o, em, acc0, g, 0);
        let acc = scan_chars(o, em, acc0, g, 0);
        lemma_finish_exact(o, em, acc);
        assert(acc.hidden_here <= g.len());
    }
}

proof fn lemma_finish_exact(o: CleaningOptions, em: bool, acc: ClusterScan)
    ensures
        stats_total(finish_cluster(o, em, acc).stats) + acc.hidden_here >= stats_total(acc.st.stats),
        exact(acc.st) && hidden_covered(acc) && stats_total(acc.st.stats) <= u64::MAX
            && stats_total(finish_cluster(o, em, acc).stats) <= u64::MAX ==> exact(
            finish_cluster(o, em, acc),
        ),
{
    let a = acc.st;
    let cl = acc.cluster;
    let p = o.non_ascii_policy;
    let ext = o.extended_keyboard;
    let n1 = count_where(cl, transliterated_pred(p, ext));
    let n2 = count_where(cl, removed_pred(p, ext));
    let n3 = count_where(cl, non_keyboard(ext));
    lemma_rec_exact(a, StatField::NonKeyboardTransliterated, n1 as u64);
    let s1 = rec_if(a, StatField::NonKeyboardTransliterated, n1);
    lemma_rec_exact(s1, StatField::NonKeyboardRemoved, n2 as u64);
    let s2 = rec_if(s1, StatField::NonKeyboardRemoved, n2);
    lemma_rec_exact(a, StatField::NonKeyboardRemoved, n3 as u64);
    lemma_emit_exact(o, a, cl);
    lemma_emit_exact(o, s2, rewritten(p, ext, cl));
    let hh = acc.hidden_here;
    let e1 = if hh > 0 {
        ScanState {
            changes: a.changes.saturating_sub(hh),
            stats: CleaningStats {
                hidden_chars_removed: a.stats.hidden_chars_removed.saturating_sub(hh),
                ..a.stats
            },
            ..a
        }
    } else {
        a
    };
    lemma_rec_exact(e1, StatField::EmojisDropped, 1);
    assert(stats_total(e1.stats) + hh >= stats_total(a.stats));
    if exact(a) && hidden_covered(acc) {
        assert(exact(e1));
    }
}

/// Across the fold the counter sum drops by less than the clusters' total length.
proof fn lemma_fold_exact(o: CleaningOptions, gs: Seq<Seq<char>>, st: ScanState, i: int)
    requires
        0 <= i <= gs.len(),
    ensures
        stats_total(fold_steps(o, gs, st, i).stats) + gs.subrange(i, gs.len() as int).flatten().len()
            >= stats_total(st.stats),
        exact(st) && stats_total(fold_steps(o, gs, st, i).stats) + gs.subrange(i, gs.len() as int).flatten().len()
            <= u64::MAX ==> exact(fold_steps(o, gs, st, i)),
    decreases gs.len() - i,
{
    let rest = gs.subrange(i, gs.len() as int);
    if i < gs.len() {
        assert(rest.drop_first() =~= gs.subrange(i + 1, gs.len() as int));
        assert(rest.flatten() == gs[i] + gs.subrange(i + 1, gs.len() as int).flatten());
        lemma_step_exact(o, st, gs[i]);
        lemma_fold_exact(o, gs, step(o, st, gs[i]), i + 1);
    }
}

/// The pass keeps its change total equal to the counter sum, provided the sum
/// plus the length of the text it runs over fits in `u64`.
pub proof fn lemma_core_exact(o: CleaningOptions, working: Seq<char>, has_prior_output: bool)
    requires
        grapheme_clusters_of(o, working).flatten() == pass_input(o, working),
        stats_total(clean_core(o, working, has_prior_output).2) + working.len() <= u64::MAX,
    ensures
        clean_core(o, working, has_prior_output).1 as int == stats_total(
            clean_core(o, working, has_prior_output).2,
        ),
{
    let gs = grapheme_clusters_of(o, working);
    let init = initial_state(has_prior_output);
    assert(exact(init));
    assert(gs.subrange(0, gs.len() as int) =~= gs);
    lemma_lf_count_ge_tally(working);
    lemma_fold_exact(o, gs, init, 0);
    let folded = fold_steps(o, gs, init, 0);
    let st = pass_result(o, working, has_prior_output);
    lemma_rec_exact(folded, StatField::TrailingWhitespaceRemoved, folded.pending.len() as u64);
    lemma_flush_exact(o, folded);
    let tally = lf_tally(working);
    let c = clean_core(o, working, has_prior_output);
    match o.normalize_line_endings {
        Some(LineEndingStyle::Lf) => {
            lemma_rec_exact(st, StatField::LineEndingsNormalized, tally_total(tally) as u64);
        },
        Some(style) => {
            let baseline = if style == LineEndingStyle::Crlf {
                tally.crlf
            } else {
                tally.cr
            };
            let net = (restamp_count(style, st.out) as u64).saturating_sub(baseline as u64);
            lemma_rec_exact(st, StatField::LineEndingsNormalized, net);
        },
        None => {},
    }
    assert(stats_total(st.stats) <= stats_total(c.2));
    assert(stats_total(folded.stats) <= stats_total(st.stats));
    assert(exact(folded));
    assert(exact(st));
}

} // verus!
