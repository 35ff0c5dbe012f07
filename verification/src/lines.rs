//! Line-ending normalization: folding every line break to LF, and stamping
//! LF back out as CRLF or CR.

use vstd::prelude::*;
use crate::options::LineEndingStyle;
use crate::util::{count_where, expand, lemma_count_le_len, lemma_count_take, lemma_expand_take};

verus! {

/// How many line breaks of each kind [`lf_text`] converts.
pub struct LineTally {
    pub crlf: nat,
    pub cr: nat,
    pub nel: nat,
    pub ls: nat,
    pub ps: nat,
}

/// `s` with CRLF, CR, NEL (U+0085), LS (U+2028) and PS (U+2029) each turned
/// into a single LF, scanning left to right.
pub open spec fn lf_text(s: Seq<char>) -> Seq<char>
    decreases s.len(),
{
    if s.len() == 0 {
        Seq::empty()
    } else if s[0] == '\r' && s.len() > 1 && s[1] == '\n' {
        seq!['\n'] + lf_text(s.subrange(2, s.len() as int))
    } else if s[0] == '\r' || s[0] == '\u{85}' || s[0] == '\u{2028}' || s[0] == '\u{2029}' {
        seq!['\n'] + lf_text(s.drop_first())
    } else {
        seq![s[0]] + lf_text(s.drop_first())
    }
}

/// The conversions [`lf_text`] performs on `s`, by kind.
pub open spec fn lf_tally(s: Seq<char>) -> LineTally
    decreases s.len(),
{
    if s.len() == 0 {
        LineTally { crlf: 0, cr: 0, nel: 0, ls: 0, ps: 0 }
    } else if s[0] == '\r' && s.len() > 1 && s[1] == '\n' {
        let t = lf_tally(s.subrange(2, s.len() as int));
        LineTally { crlf: t.crlf + 1, ..t }
    } else {
        let t = lf_tally(s.drop_first());
        if s[0] == '\r' {
            LineTally { cr: t.cr + 1, ..t }
        } else if s[0] == '\u{85}' {
            LineTally { nel: t.nel + 1, ..t }
        } else if s[0] == '\u{2028}' {
            LineTally { ls: t.ls + 1, ..t }
        } else if s[0] == '\u{2029}' {
            LineTally { ps: t.ps + 1, ..t }
        } else {
            t
        }
    }
}

/// All conversions of a tally.
pub open spec fn tally_total(t: LineTally) -> nat {
    t.crlf + t.cr + t.nel + t.ls + t.ps
}

proof fn lemma_tally_bounded(s: Seq<char>)
    ensures
        tally_total(lf_tally(s)) <= s.len(),
    decreases s.len(),
{
    if s.len() > 0 {
        if s[0] == '\r' && s.len() > 1 && s[1] == '\n' {
            lemma_tally_bounded(s.subrange(2, s.len() as int));
        } else {
            lemma_tally_bounded(s.drop_first());
        }
    }
}

/// Line-ending conversion counters.
#[derive(Clone, Copy, Debug)]
pub struct LineEndingCounts {
    pub crlf: u64,
    pub cr: u64,
    pub nel: u64,
    pub ls: u64,
    pub ps: u64,
}

impl LineEndingCounts {
    /// The counters as a tally.
    pub open spec fn tally(self) -> LineTally {
        LineTally {
            crlf: self.crlf as nat,
            cr: self.cr as nat,
            nel: self.nel as nat,
            ls: self.ls as nat,
            ps: self.ps as nat,
        }
    }

    /// All conversions.
    pub fn total(&self) -> (r: u64)
        requires
            tally_total(self.tally()) <= u64::MAX,
        ensures
            r == tally_total(self.tally()),
    {
        self.crlf + self.cr + self.nel + self.ls + self.ps
    }
}

/// Convert CRLF, CR, NEL, LS and PS to LF, counting the conversions.
pub fn to_lf(s: &Vec<char>) -> (r: (Vec<char>, LineEndingCounts))
    ensures
        r.0@ == lf_text(s@),
        r.1.tally() == lf_tally(s@),
        tally_total(r.1.tally()) <= s@.len(),
{
    let mut out: Vec<char> = Vec::new();
    let mut counts = LineEndingCounts { crlf: 0, cr: 0, nel: 0, ls: 0, ps: 0 };
    let n = s.len();
    let mut i: usize = 0;
    proof {
        assert(s@.subrange(0, n as int) =~= s@);
        lemma_tally_bounded(s@);
    }
    while i < n
        invariant
            n == s.len(),
            i <= n,
            out@ + lf_text(s@.subrange(i as int, n as int)) == lf_text(s@),
            tally_total(counts.tally()) + tally_total(lf_tally(s@.subrange(i as int, n as int)))
                == tally_total(lf_tally(s@)),
            counts.crlf + lf_tally(s@.subrange(i as int, n as int)).crlf == lf_tally(s@).crlf,
            counts.cr + lf_tally(s@.subrange(i as int, n as int)).cr == lf_tally(s@).cr,
            counts.nel + lf_tally(s@.subrange(i as int, n as int)).nel == lf_tally(s@).nel,
            counts.ls + lf_tally(s@.subrange(i as int, n as int)).ls == lf_tally(s@).ls,
            counts.ps + lf_tally(s@.subrange(i as int, n as int)).ps == lf_tally(s@).ps,
            tally_total(lf_tally(s@)) <= n,
        decreases n - i,
    {
        let ghost rest = s@.subrange(i as int, n as int);
        let c = s[i];
        proof {
            lemma_tally_bounded(rest);
            assert(rest[0] == c);
        }
        if c == '\r' && i + 1 < n && s[i + 1] == '\n' {
            proof {
                assert(rest[1] == s@[i + 1]);
                assert(rest.subrange(2, rest.len() as int) =~= s@.subrange(i + 2, n as int));
            }
            out.push('\n');
            counts.crlf = counts.crlf + 1;
            i = i + 2;
        } else {
            proof {
                assert(rest.drop_first() =~= s@.subrange(i + 1, n as int));
            }
            if c == '\r' {
                counts.cr = counts.cr + 1;
                out.push('\n');
            } else if c == '\u{85}' {
                counts.nel = counts.nel + 1;
                out.push('\n');
            } else if c == '\u{2028}' {
                counts.ls = counts.ls + 1;
                out.push('\n');
            } else if c == '\u{2029}' {
                counts.ps = counts.ps + 1;
                out.push('\n');
            } else {
                out.push(c);
            }
            i = i + 1;
        }
        proof {
            assert(out@ + lf_text(s@.subrange(i as int, n as int)) =~= lf_text(s@));
        }
    }
    proof {
        assert(s@.subrange(n as int, n as int) =~= Seq::<char>::empty());
        assert(out@ + Seq::<char>::empty() =~= out@);
    }
    (out, counts)
}

/// What one character becomes when LF is stamped out as `style`.
pub open spec fn stamp_piece(style: LineEndingStyle) -> spec_fn(char) -> Seq<char> {
    |c: char|
        if c == '\n' {
            match style {
                LineEndingStyle::Lf => seq!['\n'],
                LineEndingStyle::Crlf => seq!['\r', '\n'],
                LineEndingStyle::Cr => seq!['\r'],
            }
        } else {
            seq![c]
        }
}

/// Line feeds.
pub open spec fn is_lf() -> spec_fn(char) -> bool {
    |c: char| c == '\n'
}

/// `s` with every LF stamped out as `style`.
pub open spec fn restamped(style: LineEndingStyle, s: Seq<char>) -> Seq<char> {
    expand(s, stamp_piece(style))
}

/// The number of line feeds a restamp to `style` rewrites.
pub open spec fn restamp_count(style: LineEndingStyle, s: Seq<char>) -> nat {
    match style {
        LineEndingStyle::Lf => 0,
        _ => count_where(s, is_lf()),
    }
}

/// Stamp every LF of `text` out as `style`, returning how many were rewritten.
pub fn restamp_line_endings_mut(style: LineEndingStyle, text: &mut Vec<char>) -> (r: u64)
    ensures
        final(text)@ == restamped(style, old(text)@),
        r == restamp_count(style, old(text)@),
{
    let mut out: Vec<char> = Vec::new();
    let mut lf_count: u64 = 0;
    let mut i: usize = 0;
    let n = text.len();
    while i < n
        invariant
            n == text.len(),
            i <= n,
            text@ == old(text)@,
            out@ == restamped(style, text@.take(i as int)),
            lf_count == count_where(text@.take(i as int), is_lf()),
        decreases n - i,
    {
        let c = text[i];
        proof {
            lemma_expand_take(text@, stamp_piece(style), i as int);
            lemma_count_take(text@, is_lf(), i as int);
            lemma_count_le_len(text@.take(i as int), is_lf());
        }
        if c == '\n' {
            match style {
                LineEndingStyle::Lf => {
                    out.push('\n');
                },
                LineEndingStyle::Crlf => {
                    out.push('\r');
                    out.push('\n');
                },
                LineEndingStyle::Cr => {
                    out.push('\r');
                },
            }
            lf_count = lf_count + 1;
        } else {
            out.push(c);
        }
        proof {
            assert(out@ =~= restamped(style, text@.take(i + 1)));
        }
        i = i + 1;
    }
    proof {
        assert(text@.take(n as int) =~= text@);
    }
    *text = out;
    match style {
        LineEndingStyle::Lf => 0,
        _ => lf_count,
    }
}

/// Not a line break other than LF: no CR, NEL, LS or PS.
pub open spec fn lf_clean(c: char) -> bool {
    c != '\r' && c != '\u{85}' && c != '\u{2028}' && c != '\u{2029}'
}

/// No CR, NEL, LS or PS in `s`: every line break is a bare LF.
pub open spec fn lf_only(s: Seq<char>) -> bool {
    forall|i: int| 0 <= i < s.len() ==> lf_clean(#[trigger] s[i])
}

/// Every line break of `s` is written as `style`: bare LFs; CR LF pairs
/// (no CR without an LF after it, no LF without a CR before it); or bare CRs
/// (no LF). In each case there is no NEL, LS or PS.
pub open spec fn breaks_in_style(style: LineEndingStyle, s: Seq<char>) -> bool {
    match style {
        LineEndingStyle::Lf => lf_only(s),
        LineEndingStyle::Crlf => forall|i: int|
            0 <= i < s.len() ==> {
                &&& #[trigger] s[i] != '\u{85}' && s[i] != '\u{2028}' && s[i] != '\u{2029}'
                &&& s[i] == '\r' ==> i + 1 < s.len() && s[i + 1] == '\n'
                &&& s[i] == '\n' ==> i > 0 && s[i - 1] == '\r'
            },
        LineEndingStyle::Cr => forall|i: int|
            0 <= i < s.len() ==> #[trigger] s[i] != '\n' && s[i] != '\u{85}' && s[i]
                != '\u{2028}' && s[i] != '\u{2029}',
    }
}

/// Concatenation keeps [`lf_only`].
pub proof fn lemma_concat_lf(a: Seq<char>, b: Seq<char>)
    requires
        lf_only(a),
        lf_only(b),
    ensures
        lf_only(a + b),
{
    assert forall|i: int| 0 <= i < (a + b).len() implies lf_clean(#[trigger] (a + b)[i]) by {
        if i < a.len() {
            assert((a + b)[i] == a[i]);
        } else {
            assert((a + b)[i] == b[i - a.len()]);
        }
    }
}

/// Expanding a text without CR, NEL, LS or PS by pieces that introduce none
/// of them gives a text without them.
pub proof fn lemma_expand_lf(s: Seq<char>, f: spec_fn(char) -> Seq<char>)
    requires
        lf_only(s),
        forall|c: char| lf_clean(c) ==> lf_only(#[trigger] f(c)),
    ensures
        lf_only(expand(s, f)),
    decreases s.len(),
{
    if s.len() > 0 {
        let init = s.drop_last();
        assert(lf_only(init)) by {
            assert forall|i: int| 0 <= i < init.len() implies lf_clean(#[trigger] init[i]) by {
                assert(init[i] == s[i]);
            }
        }
        lemma_expand_lf(init, f);
        assert(lf_clean(s.last()));
        lemma_concat_lf(expand(init, f), f(s.last()));
    }
}

/// Line-feed folding leaves no CR, NEL, LS or PS.
pub proof fn lemma_lf_text_clean(s: Seq<char>)
    ensures
        lf_only(lf_text(s)),
    decreases s.len(),
{
    if s.len() > 0 {
        if s[0] == '\r' && s.len() > 1 && s[1] == '\n' {
            lemma_lf_text_clean(s.subrange(2, s.len() as int));
            lemma_concat_lf(seq!['\n'], lf_text(s.subrange(2, s.len() as int)));
        } else if s[0] == '\r' || s[0] == '\u{85}' || s[0] == '\u{2028}' || s[0] == '\u{2029}' {
            lemma_lf_text_clean(s.drop_first());
            lemma_concat_lf(seq!['\n'], lf_text(s.drop_first()));
        } else {
            lemma_lf_text_clean(s.drop_first());
            lemma_concat_lf(seq![s[0]], lf_text(s.drop_first()));
        }
    }
}

/// Every part of a flattened sequence without CR, NEL, LS or PS is without them too.
pub proof fn lemma_flatten_parts_lf(gs: Seq<Seq<char>>)
    requires
        lf_only(gs.flatten()),
    ensures
        forall|i: int| 0 <= i < gs.len() ==> lf_only(#[trigger] gs[i]),
    decreases gs.len(),
{
    if gs.len() > 0 {
        let f = gs.first();
        let rest = gs.drop_first();
        assert(gs.flatten() == f + rest.flatten());
        assert(lf_only(f)) by {
            assert forall|j: int| 0 <= j < f.len() implies lf_clean(#[trigger] f[j]) by {
                assert((f + rest.flatten())[j] == f[j]);
            }
        }
        assert(lf_only(rest.flatten())) by {
            assert forall|j: int| 0 <= j < rest.flatten().len() implies lf_clean(
                #[trigger] rest.flatten()[j],
            ) by {
                assert((f + rest.flatten())[f.len() + j] == rest.flatten()[j]);
            }
        }
        lemma_flatten_parts_lf(rest);
        assert forall|i: int| 0 <= i < gs.len() implies lf_only(#[trigger] gs[i]) by {
            if i > 0 {
                assert(gs[i] == rest[i - 1]);
            }
        }
    }
}

/// Stamping the LFs of a text without other line breaks out as `style`
/// writes every line break as `style`.
pub proof fn lemma_restamp_style(style: LineEndingStyle, s: Seq<char>)
    requires
        lf_only(s),
    ensures
        breaks_in_style(style, restamped(style, s)),
    decreases s.len(),
{
    if s.len() == 0 {
        assert(restamped(style, s) =~= Seq::<char>::empty());
    } else {
        let init = s.drop_last();
        assert(lf_only(init)) by {
            assert forall|i: int| 0 <= i < init.len() implies lf_clean(#[trigger] init[i]) by {
                assert(init[i] == s[i]);
            }
        }
        lemma_restamp_style(style, init);
        let a = restamped(style, init);
        let c = s.last();
        assert(lf_clean(c));
        let b = stamp_piece(style)(c);
        let t = a + b;
        assert(restamped(style, s) == t);
        match style {
            LineEndingStyle::Lf => {
                assert(lf_only(b));
                lemma_concat_lf(a, b);
            },
            LineEndingStyle::Crlf => {
                assert forall|i: int| 0 <= i < t.len() implies {
                    &&& #[trigger] t[i] != '\u{85}' && t[i] != '\u{2028}' && t[i] != '\u{2029}'
                    &&& t[i] == '\r' ==> i + 1 < t.len() && t[i + 1] == '\n'
                    &&& t[i] == '\n' ==> i > 0 && t[i - 1] == '\r'
                } by {
                    if i < a.len() {
                        assert(t[i] == a[i]);
                        if i + 1 < a.len() {
                            assert(t[i + 1] == a[i + 1]);
                        }
                        if i > 0 {
                            assert(t[i - 1] == a[i - 1]);
                        }
                    } else {
                        assert(t[i] == b[i - a.len()]);
                        if i > a.len() {
                            assert(t[i - 1] == b[i - 1 - a.len()]);
                        } else if i > 0 {
                            assert(t[i - 1] == a[i - 1]);
                        }
                        if i + 1 < t.len() {
                            assert(t[i + 1] == b[i + 1 - a.len()]);
                        }
                    }
                }
            },
            LineEndingStyle::Cr => {
                assert forall|i: int| 0 <= i < t.len() implies #[trigger] t[i] != '\n' && t[i]
                    != '\u{85}' && t[i] != '\u{2028}' && t[i] != '\u{2029}' by {
                    if i < a.len() {
                        assert(t[i] == a[i]);
                    } else {
                        assert(t[i] == b[i - a.len()]);
                    }
                }
            },
        }
    }
}

} // verus!
