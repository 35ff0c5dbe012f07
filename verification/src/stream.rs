//! Streaming: cleaning arbitrarily chunked input line by line.

use vstd::prelude::*;
use std::borrow::Cow;
use crate::cleaner::{ascii_fast_path, clean_chars, cleaned, normalized_input, TextCleaner};
use crate::engine::pass_input;
use crate::locality::{
    clean_core_is_line_local, line_break_cluster, pass_keeps_fast_path_text,
};
use crate::text::grapheme_clusters;
use crate::sets::{ascii_char, fast_path_safe};
use crate::options::CleaningOptions;
use crate::stats::{merged, zero_stats, CleaningResult, CleaningStats};
use crate::text::{chars_of, string_from_chars};
use crate::lines::breaks_in_style;

verus! {

/// Summary of cumulative streaming cleanup work.
#[derive(Clone, Copy, Debug)]
pub struct StreamSummary {
    /// Aggregated counters over all emitted chunks.
    pub stats: CleaningStats,
    /// Total transformations across all emitted chunks.
    pub changes_made: u64,
}

/// Characters that end a flushable chunk: LF, U+2028 LINE SEPARATOR and
/// U+2029 PARAGRAPH SEPARATOR.
pub open spec fn flush_boundary(c: char) -> bool {
    c == '\n' || c == '\u{2028}' || c == '\u{2029}'
}

/// The index of the last flush boundary in `s`, if any.
pub open spec fn last_boundary(s: Seq<char>) -> Option<int>
    decreases s.len(),
{
    if s.len() == 0 {
        None
    } else if flush_boundary(s.last()) {
        Some(s.len() - 1)
    } else {
        last_boundary(s.drop_last())
    }
}

/// The abstract state of a stream cleaner.
pub struct StreamState {
    pub options: CleaningOptions,
    /// Input received but not yet cleaned.
    pub buffer: Seq<char>,
    pub total_stats: CleaningStats,
    pub total_changes: u64,
    pub has_emitted_output: bool,
}

/// The state after cleaning one chunk.
pub open spec fn after_chunk(s: StreamState, chunk: Seq<char>, rest: Seq<char>) -> StreamState {
    let c = cleaned(s.options, chunk, s.has_emitted_output);
    StreamState {
        buffer: rest,
        total_stats: merged(s.total_stats, c.2),
        total_changes: s.total_changes.saturating_add(c.1),
        has_emitted_output: s.has_emitted_output || c.0.len() > 0,
        ..s
    }
}

/// What feeding `chunk` does: the next state, and the text emitted (if a
/// line was completed).
pub open spec fn fed(s: StreamState, chunk: Seq<char>) -> (StreamState, Option<Seq<char>>) {
    let buf = s.buffer + chunk;
    if chunk.len() == 0 {
        (s, None)
    } else {
        match last_boundary(buf) {
            None => (StreamState { buffer: buf, ..s }, None),
            Some(k) => (
                after_chunk(s, buf.take(k + 1), buf.skip(k + 1)),
                Some(cleaned(s.options, buf.take(k + 1), s.has_emitted_output).0),
            ),
        }
    }
}

/// What finishing does: the next state, and the text emitted (if anything
/// was buffered).
pub open spec fn finished(s: StreamState) -> (StreamState, Option<Seq<char>>) {
    if s.buffer.len() == 0 {
        (s, None)
    } else {
        (
            after_chunk(s, s.buffer, Seq::empty()),
            Some(cleaned(s.options, s.buffer, s.has_emitted_output).0),
        )
    }
}

/// The text of an optional result.
pub open spec fn emitted_text<'a>(r: Option<CleaningResult<'a>>) -> Option<Seq<char>> {
    match r {
        Some(res) => Some(res.text@),
        None => None,
    }
}

/// An optional emission as text (nothing when `None`).
pub open spec fn or_nothing(t: Option<Seq<char>>) -> Seq<char> {
    match t {
        Some(x) => x,
        None => Seq::empty(),
    }
}

/// Everything a stream in state `s` emits when fed `chunks` in order and
/// then finished.
pub open spec fn streamed(s: StreamState, chunks: Seq<Seq<char>>) -> Seq<char>
    decreases chunks.len(),
{
    if chunks.len() == 0 {
        or_nothing(finished(s).1)
    } else {
        let (next, out) = fed(s, chunks[0]);
        or_nothing(out) + streamed(next, chunks.drop_first())
    }
}

/// A call made on a stream cleaner.
pub enum StreamCall {
    /// `feed` with a chunk.
    Feed(Seq<char>),
    /// `finish`.
    Finish,
}

/// What one emission reports: the text, the number of changes and the
/// counters.
pub type Emission = (Seq<char>, u64, CleaningStats);

/// What a stream in state `s` answers `call`: its next state, and what it
/// emits, if anything.
pub open spec fn answer(s: StreamState, call: StreamCall) -> (StreamState, Option<Emission>) {
    match call {
        StreamCall::Feed(chunk) => {
            let buf = s.buffer + chunk;
            if chunk.len() == 0 {
                (s, None)
            } else {
                match last_boundary(buf) {
                    None => (StreamState { buffer: buf, ..s }, None),
                    Some(k) => (
                        after_chunk(s, buf.take(k + 1), buf.skip(k + 1)),
                        Some(cleaned(s.options, buf.take(k + 1), s.has_emitted_output)),
                    ),
                }
            }
        },
        StreamCall::Finish => {
            if s.buffer.len() == 0 {
                (s, None)
            } else {
                (
                    after_chunk(s, s.buffer, Seq::empty()),
                    Some(cleaned(s.options, s.buffer, s.has_emitted_output)),
                )
            }
        },
    }
}

/// The emission a result reports.
pub open spec fn emission_of<'a>(r: Option<CleaningResult<'a>>) -> Option<Emission> {
    match r {
        Some(res) => Some((res.text@, res.changes_made, res.stats)),
        None => None,
    }
}

/// The state after a sequence of calls, and what each call emitted.
pub open spec fn run(s: StreamState, calls: Seq<StreamCall>) -> (StreamState, Seq<Option<Emission>>)
    decreases calls.len(),
{
    if calls.len() == 0 {
        (s, Seq::empty())
    } else {
        let (next, e) = answer(s, calls[0]);
        let (last, es) = run(next, calls.drop_first());
        (last, seq![e] + es)
    }
}

/// Running totals `t` (changes, counters) with emission `e` added: changes
/// added with saturation, counters accumulated.
pub open spec fn add_emission(t: (u64, CleaningStats), e: Option<Emission>) -> (u64, CleaningStats) {
    match e {
        Some(x) => (t.0.saturating_add(x.1), merged(t.1, x.2)),
        None => t,
    }
}

/// Running totals `t` with the emissions `es` added in order.
pub open spec fn summed(t: (u64, CleaningStats), es: Seq<Option<Emission>>) -> (u64, CleaningStats)
    decreases es.len(),
{
    if es.len() == 0 {
        t
    } else {
        summed(add_emission(t, es[0]), es.drop_first())
    }
}

/// The summary of a stream is what it has emitted, summed: after any
/// sequence of feed and finish calls, the stream's total changes are the
/// saturating sum of the changes of every emitted result, and its counters
/// are every emitted result's counters accumulated, on top of the totals it
/// started from (zero for a new stream).
pub proof fn summary_sums_emissions(s: StreamState, calls: Seq<StreamCall>)
    ensures
        ({
            let (last, es) = run(s, calls);
            (last.total_changes, last.total_stats) == summed((s.total_changes, s.total_stats), es)
        }),
    decreases calls.len(),
{
    if calls.len() > 0 {
        let (next, e) = answer(s, calls[0]);
        summary_sums_emissions(next, calls.drop_first());
        let es = run(next, calls.drop_first()).1;
        assert((seq![e] + es)[0] == e);
        assert((seq![e] + es).drop_first() =~= es);
        assert((next.total_changes, next.total_stats) == add_emission((s.total_changes, s.total_stats), e));
    }
}

/// A stream built from a cleaner behaves as one built from that cleaner's
/// options (`from_cleaner` and `new` start in these states): for any
/// sequence of calls both give the same emissions and end in the same state,
/// so the same summary.
pub proof fn stream_from_cleaner_is_stream_new(c: TextCleaner, o: CleaningOptions, calls: Seq<StreamCall>)
    requires
        c@ == o,
    ensures
        run(fresh_stream(c@), calls) == run(fresh_stream(o), calls),
{
}

/// Incremental cleaner that processes text in line-delimited chunks.
pub struct StreamCleaner {
    cleaner: TextCleaner,
    buffer: Vec<char>,
    total_stats: CleaningStats,
    total_changes: u64,
    has_emitted_output: bool,
}

impl View for StreamCleaner {
    type V = StreamState;

    closed spec fn view(&self) -> StreamState {
        StreamState {
            options: self.cleaner@,
            buffer: self.buffer@,
            total_stats: self.total_stats,
            total_changes: self.total_changes,
            has_emitted_output: self.has_emitted_output,
        }
    }
}

/// A fresh stream over options `o`.
pub open spec fn fresh_stream(o: CleaningOptions) -> StreamState {
    StreamState {
        options: o,
        buffer: Seq::empty(),
        total_stats: zero_stats(),
        total_changes: 0,
        has_emitted_output: false,
    }
}

impl StreamCleaner {
    /// Construct a streaming cleaner from options.
    pub fn new(options: CleaningOptions) -> (r: Self)
        ensures
            r@ == fresh_stream(options),
    {
        StreamCleaner {
            cleaner: TextCleaner::new(options),
            buffer: Vec::new(),
            total_stats: CleaningStats::default(),
            total_changes: 0,
            has_emitted_output: false,
        }
    }

    /// Construct a streaming cleaner from an existing [`TextCleaner`].
    pub fn from_cleaner(cleaner: TextCleaner) -> (r: Self)
        ensures
            r@ == fresh_stream(cleaner@),
    {
        StreamCleaner {
            cleaner,
            buffer: Vec::new(),
            total_stats: CleaningStats::default(),
            total_changes: 0,
            has_emitted_output: false,
        }
    }

    /// Feed one input chunk; cleaned output is emitted only up to the last
    /// line boundary (LF, U+2028 or U+2029) received so far.
    ///
    /// Returns `Some` when at least one complete line was processed; `out`
    /// then holds the emitted text, and is empty otherwise.
    pub fn feed(&mut self, chunk: &str, out: &mut String) -> (r: Option<CleaningResult<'static>>)
        ensures
            fed(old(self)@, chunk@) == (final(self)@, emitted_text(r)),
            answer(old(self)@, StreamCall::Feed(chunk@)) == (final(self)@, emission_of(r)),
            ({
                let s = old(self)@;
                let buf = s.buffer + chunk@;
                if chunk@.len() == 0 {
                    &&& r is None
                    &&& final(self)@ == s
                    &&& final(out)@.len() == 0
                } else {
                    match last_boundary(buf) {
                        None => {
                            &&& r is None
                            &&& final(self)@ == (StreamState { buffer: buf, ..s })
                            &&& final(out)@.len() == 0
                        },
                        Some(k) => {
                            let c = cleaned(s.options, buf.take(k + 1), s.has_emitted_output);
                            &&& r matches Some(res) && res.text@ == c.0 && res.changes_made == c.1
                                && res.stats == c.2
                            &&& final(out)@ == c.0
                            &&& final(self)@ == after_chunk(s, buf.take(k + 1), buf.skip(k + 1))
                            &&& (s.options.normalize_line_endings matches Some(style)
                                ==> breaks_in_style(style, c.0))
                            &&& (c.1 == 0 ==> c.0 == buf.take(k + 1))
                        },
                    }
                }
            }),
    {
        *out = String::new();
        let incoming = chars_of(chunk);
        if incoming.len() == 0 {
            return None;
        }
        let ghost old_buf = self.buffer@;
        let mut k: usize = 0;
        while k < incoming.len()
            invariant
                k <= incoming.len(),
                self.buffer@ == old_buf + incoming@.take(k as int),
                self.total_stats == old(self).total_stats,
                self.total_changes == old(self).total_changes,
                self.has_emitted_output == old(self).has_emitted_output,
                self.cleaner@ == old(self).cleaner@,
            decreases incoming.len() - k,
        {
            self.buffer.push(incoming[k]);
            k = k + 1;
            assert(self.buffer@ =~= old_buf + incoming@.take(k as int));
        }
        assert(incoming@.take(incoming.len() as int) =~= incoming@);
        let ghost buf = self.buffer@;
        let mut end: usize = self.buffer.len();
        assert(buf.take(end as int) =~= buf);
        while end > 0 && !(self.buffer[end - 1] == '\n' || self.buffer[end - 1] == '\u{2028}'
            || self.buffer[end - 1] == '\u{2029}')
            invariant
                end <= self.buffer.len(),
                self.buffer@ == buf,
                self.total_stats == old(self).total_stats,
                self.total_changes == old(self).total_changes,
                self.has_emitted_output == old(self).has_emitted_output,
                self.cleaner@ == old(self).cleaner@,
                last_boundary(buf) == last_boundary(buf.take(end as int)),
            decreases end,
        {
            assert(buf.take(end as int).drop_last() =~= buf.take(end - 1));
            end = end - 1;
        }
        if end == 0 {
            assert(buf.take(0) =~= Seq::<char>::empty());
            return None;
        }
        assert(buf.take(end as int).last() == buf[end - 1]);
        assert(last_boundary(buf) == Some(end - 1));
        let mut to_process: Vec<char> = Vec::new();
        let mut rest: Vec<char> = Vec::new();
        let mut j: usize = 0;
        while j < self.buffer.len()
            invariant
                j <= self.buffer.len(),
                end <= self.buffer.len(),
                self.buffer@ == buf,
                self.total_stats == old(self).total_stats,
                self.total_changes == old(self).total_changes,
                self.has_emitted_output == old(self).has_emitted_output,
                self.cleaner@ == old(self).cleaner@,
                j <= end ==> to_process@ == buf.take(j as int) && rest@.len() == 0,
                j > end ==> to_process@ == buf.take(end as int) && rest@ == buf.subrange(
                    end as int,
                    j as int,
                ),
            decreases self.buffer.len() - j,
        {
            if j < end {
                to_process.push(self.buffer[j]);
                assert(to_process@ =~= buf.take(j + 1));
            } else {
                rest.push(self.buffer[j]);
                assert(rest@ =~= buf.subrange(end as int, j + 1));
            }
            j = j + 1;
        }
        assert(rest@ =~= buf.skip(end as int));
        self.buffer = rest;
        Some(self.process_chunk(to_process, out))
    }

    /// Flush remaining buffered text at end-of-stream.
    pub fn finish(&mut self, out: &mut String) -> (r: Option<CleaningResult<'static>>)
        ensures
            finished(old(self)@) == (final(self)@, emitted_text(r)),
            answer(old(self)@, StreamCall::Finish) == (final(self)@, emission_of(r)),
            ({
                let s = old(self)@;
                if s.buffer.len() == 0 {
                    &&& r is None
                    &&& final(self)@ == s
                    &&& final(out)@.len() == 0
                } else {
                    let c = cleaned(s.options, s.buffer, s.has_emitted_output);
                    &&& r matches Some(res) && res.text@ == c.0 && res.changes_made == c.1
                        && res.stats == c.2
                    &&& final(out)@ == c.0
                    &&& final(self)@ == after_chunk(s, s.buffer, Seq::empty())
                    &&& (s.options.normalize_line_endings matches Some(style)
                        ==> breaks_in_style(style, c.0))
                    &&& (c.1 == 0 ==> c.0 == s.buffer)
                }
            }),
    {
        *out = String::new();
        if self.buffer.len() == 0 {
            return None;
        }
        let mut remainder: Vec<char> = Vec::new();
        std::mem::swap(&mut remainder, &mut self.buffer);
        Some(self.process_chunk(remainder, out))
    }

    /// Return cumulative stream statistics.
    pub fn summary(&self) -> (r: StreamSummary)
        ensures
            r.stats == self@.total_stats,
            r.changes_made == self@.total_changes,
    {
        StreamSummary { stats: self.total_stats, changes_made: self.total_changes }
    }

    fn process_chunk(&mut self, chunk: Vec<char>, out: &mut String) -> (r: CleaningResult<'static>)
        ensures
            ({
                let c = cleaned(old(self)@.options, chunk@, old(self)@.has_emitted_output);
                &&& r.text@ == c.0 && r.changes_made == c.1 && r.stats == c.2
                &&& final(out)@ == c.0
                &&& final(self)@ == after_chunk(old(self)@, chunk@, old(self)@.buffer)
                &&& (old(self)@.options.normalize_line_endings matches Some(style)
                    ==> breaks_in_style(style, c.0))
                &&& (c.1 == 0 ==> c.0 == chunk@)
            }),
    {
        let (text, changes, stats) = clean_chars(self.cleaner.options(), chunk, self.has_emitted_output);
        self.total_stats.accumulate(&stats);
        self.total_changes = self.total_changes.saturating_add(changes);
        if text.len() > 0 {
            self.has_emitted_output = true;
        }
        let s = string_from_chars(&text);
        *out = s.clone();
        CleaningResult { text: Cow::Owned(s), changes_made: changes, stats }
    }
}

/// Where `last_boundary` points: at a boundary with none after it, or
/// nowhere when `s` holds no boundary.
proof fn lemma_last_boundary(s: Seq<char>)
    ensures
        match last_boundary(s) {
            Some(k) => 0 <= k < s.len() && flush_boundary(s[k]) && forall|i: int|
                k < i < s.len() ==> !flush_boundary(#[trigger] s[i]),
            None => forall|i: int| 0 <= i < s.len() ==> !flush_boundary(#[trigger] s[i]),
        },
    decreases s.len(),
{
    if s.len() > 0 && !flush_boundary(s.last()) {
        lemma_last_boundary(s.drop_last());
        assert forall|i: int| 0 <= i < s.len() - 1 implies s.drop_last()[i] == s[i] by {}
    }
}

/// A flattening with nothing in it comes from empty chunks only.
proof fn lemma_empty_flatten(chunks: Seq<Seq<char>>)
    requires
        chunks.flatten().len() == 0,
    ensures
        forall|i: int| 0 <= i < chunks.len() ==> (#[trigger] chunks[i]).len() == 0,
    decreases chunks.len(),
{
    if chunks.len() > 0 {
        lemma_empty_flatten(chunks.drop_first());
        assert forall|i: int| 0 <= i < chunks.len() implies (#[trigger] chunks[i]).len() == 0 by {
            if i > 0 {
                assert(chunks[i] == chunks.drop_first()[i - 1]);
            }
        }
    }
}

/// A stream with nothing buffered that is fed only empty chunks and then
/// finished emits nothing.
proof fn lemma_idle_stream(s: StreamState, chunks: Seq<Seq<char>>)
    requires
        s.buffer.len() == 0,
        forall|i: int| 0 <= i < chunks.len() ==> (#[trigger] chunks[i]).len() == 0,
    ensures
        streamed(s, chunks) == Seq::<char>::empty(),
    decreases chunks.len(),
{
    if chunks.len() > 0 {
        assert(chunks[0].len() == 0);
        lemma_idle_stream(s, chunks.drop_first());
        assert(or_nothing(fed(s, chunks[0]).1) + Seq::<char>::empty() =~= Seq::<char>::empty());
    }
}

/// The streamed output of a line still being received: the buffer holds no
/// boundary, nothing was emitted yet, and the rest of the line carries a
/// boundary at most as its last character.
proof fn lemma_stream_one_line(s: StreamState, chunks: Seq<Seq<char>>)
    requires
        !s.has_emitted_output,
        forall|i: int| 0 <= i < s.buffer.len() ==> !flush_boundary(#[trigger] s.buffer[i]),
        forall|i: int|
            0 <= i < (s.buffer + chunks.flatten()).len() - 1 ==> !flush_boundary(
                #[trigger] (s.buffer + chunks.flatten())[i],
            ),
    ensures
        streamed(s, chunks) == cleaned(s.options, s.buffer + chunks.flatten(), false).0,
    decreases chunks.len(),
{
    let total = s.buffer + chunks.flatten();
    if chunks.len() == 0 {
        assert(total =~= s.buffer);
        if s.buffer.len() == 0 {
            assert(or_nothing(finished(s).1) =~= Seq::<char>::empty());
        }
    } else {
        let c0 = chunks[0];
        let rest = chunks.drop_first();
        assert(chunks.flatten() == c0 + rest.flatten());
        let buf = s.buffer + c0;
        assert(total =~= buf + rest.flatten());
        if c0.len() == 0 {
            assert(buf =~= s.buffer);
            lemma_stream_one_line(s, rest);
            assert(or_nothing(fed(s, c0).1) + streamed(s, rest) =~= streamed(s, rest));
        } else {
            lemma_last_boundary(buf);
            match last_boundary(buf) {
                None => {
                    let next = StreamState { buffer: buf, ..s };
                    assert(next.buffer + rest.flatten() =~= total);
                    lemma_stream_one_line(next, rest);
                    assert(or_nothing(fed(s, c0).1) + streamed(next, rest) =~= streamed(next, rest));
                },
                Some(k) => {
                    assert(buf[k] == total[k]);
                    assert(k == total.len() - 1);
                    assert(rest.flatten().len() == 0);
                    lemma_empty_flatten(rest);
                    assert(buf.take(k + 1) =~= buf);
                    assert(buf =~= total);
                    let next = after_chunk(s, buf.take(k + 1), buf.skip(k + 1));
                    assert(next.buffer.len() == 0);
                    lemma_idle_stream(next, rest);
                    let out = cleaned(s.options, buf.take(k + 1), s.has_emitted_output).0;
                    assert(or_nothing(fed(s, c0).1) + streamed(next, rest) =~= out);
                },
            }
        }
    }
}

/// A single line streamed in any chunking comes out as the batch cleaner
/// cleans it: feeding a fresh stream the chunks in order and finishing it
/// emits, all together, the batch-cleaned text of their concatenation,
/// provided that no line boundary (LF, U+2028, U+2029) occurs in it except
/// possibly as its last character.
pub proof fn single_line_stream_matches_batch(o: CleaningOptions, chunks: Seq<Seq<char>>)
    requires
        forall|i: int|
            0 <= i < chunks.flatten().len() - 1 ==> !flush_boundary(#[trigger] chunks.flatten()[i]),
    ensures
        streamed(fresh_stream(o), chunks) == cleaned(o, chunks.flatten(), false).0,
{
    let s = fresh_stream(o);
    assert(s.buffer + chunks.flatten() =~= chunks.flatten());
    lemma_stream_one_line(s, chunks);
}

/// A stretch of text that takes the ASCII fast path keeps doing so in every
/// piece of it.
proof fn lemma_fast_path_piece(o: CleaningOptions, t: Seq<char>, a: int, b: int)
    requires
        ascii_fast_path(o, t),
        0 <= a <= b <= t.len(),
    ensures
        ascii_fast_path(o, t.subrange(a, b)),
{
    let u = t.subrange(a, b);
    assert forall|i: int| 0 <= i < u.len() implies ascii_char(#[trigger] u[i]) by {
        assert(u[i] == t[a + i]);
    }
    if o.keyboard_only {
        assert forall|i: int| 0 <= i < u.len() implies fast_path_safe(#[trigger] u[i]) by {
            assert(u[i] == t[a + i]);
        }
    }
}

/// A stream whose pending and incoming text takes the ASCII fast path emits
/// exactly that text.
proof fn lemma_stream_fast(s: StreamState, chunks: Seq<Seq<char>>)
    requires
        ascii_fast_path(s.options, s.buffer + chunks.flatten()),
    ensures
        streamed(s, chunks) == s.buffer + chunks.flatten(),
    decreases chunks.len(),
{
    let o = s.options;
    let total = s.buffer + chunks.flatten();
    if chunks.len() == 0 {
        assert(total =~= s.buffer);
        if s.buffer.len() == 0 {
            assert(or_nothing(finished(s).1) =~= s.buffer);
        }
    } else {
        let c0 = chunks[0];
        let rest = chunks.drop_first();
        assert(chunks.flatten() == c0 + rest.flatten());
        let buf = s.buffer + c0;
        assert(total =~= buf + rest.flatten());
        if c0.len() == 0 {
            assert(buf =~= s.buffer);
            lemma_stream_fast(s, rest);
            assert(or_nothing(fed(s, c0).1) + streamed(s, rest) =~= streamed(s, rest));
        } else {
            lemma_last_boundary(buf);
            match last_boundary(buf) {
                None => {
                    let next = StreamState { buffer: buf, ..s };
                    assert(next.buffer + rest.flatten() =~= total);
                    lemma_stream_fast(next, rest);
                    assert(or_nothing(fed(s, c0).1) + streamed(next, rest) =~= streamed(next, rest));
                },
                Some(k) => {
                    let line = buf.take(k + 1);
                    lemma_fast_path_piece(o, total, 0, k + 1);
                    assert(total.subrange(0, k + 1) =~= line);
                    let next = after_chunk(s, line, buf.skip(k + 1));
                    assert(next.buffer + rest.flatten() =~= total.subrange(k + 1, total.len() as int));
                    lemma_fast_path_piece(o, total, k + 1, total.len() as int);
                    lemma_stream_fast(next, rest);
                    assert(or_nothing(fed(s, c0).1) + streamed(next, rest) =~= total);
                },
            }
        }
    }
}

/// Input on the ASCII fast path streams through unchanged in any chunking,
/// just as the batch cleaner hands it back: feeding a fresh stream the chunks
/// in order and finishing it emits the batch-cleaned text of their
/// concatenation, which is that concatenation itself.
pub proof fn fast_path_stream_matches_batch(o: CleaningOptions, chunks: Seq<Seq<char>>)
    requires
        ascii_fast_path(o, chunks.flatten()),
    ensures
        streamed(fresh_stream(o), chunks) == cleaned(o, chunks.flatten(), false).0,
        cleaned(o, chunks.flatten(), false).0 == chunks.flatten(),
{
    let s = fresh_stream(o);
    assert(s.buffer + chunks.flatten() =~= chunks.flatten());
    lemma_stream_fast(s, chunks);
}

/// What the outside normalization and segmentation do where a text is split
/// after a line: normalizing the whole normalizes the two parts, the
/// clusters of each part, as the pass reads it, concatenate back to it, and
/// those of the normalized whole are those of the parts, the first part
/// ending in a cluster that the pass treats as a line break.
pub open spec fn splits_cleanly(o: CleaningOptions, a: Seq<char>, r: Seq<char>) -> bool {
    let wa = normalized_input(o, a);
    let wr = normalized_input(o, r);
    let ca = grapheme_clusters(pass_input(o, wa));
    let cr = grapheme_clusters(pass_input(o, wr));
    &&& normalized_input(o, a + r) == wa + wr
    &&& grapheme_clusters(pass_input(o, wa + wr)) == ca + cr
    &&& ca.flatten() == pass_input(o, wa)
    &&& cr.flatten() == pass_input(o, wr)
    &&& ca.len() > 0
    &&& line_break_cluster(o, ca.last())
}

/// Every split of `t` after a flush boundary, taken from any earlier
/// position, splits cleanly.
pub open spec fn lines_split_cleanly(o: CleaningOptions, t: Seq<char>) -> bool {
    forall|j: int, k: int|
        #![trigger t.subrange(j, k)]
        0 <= j < k < t.len() && flush_boundary(t[k - 1]) ==> splits_cleanly(
            o,
            t.subrange(j, k),
            t.skip(k),
        )
}

/// Cleaning a text split cleanly after a line writes what cleaning the line
/// writes, which is not empty, then what cleaning the rest writes after it.
proof fn lemma_cleaned_split(o: CleaningOptions, a: Seq<char>, r: Seq<char>, h: bool)
    requires
        a.len() > 0,
        r.len() > 0,
        splits_cleanly(o, a, r),
        a.len() + r.len() <= u64::MAX,
    ensures
        cleaned(o, a + r, h).0 == cleaned(o, a, h).0 + cleaned(o, r, true).0,
        cleaned(o, a, h).0.len() > 0,
{
    let t = a + r;
    if ascii_fast_path(o, t) {
        lemma_fast_path_piece(o, t, 0, a.len() as int);
        lemma_fast_path_piece(o, t, a.len() as int, t.len() as int);
        assert(t.subrange(0, a.len() as int) =~= a);
        assert(t.subrange(a.len() as int, t.len() as int) =~= r);
    } else {
        let wa = normalized_input(o, a);
        let wr = normalized_input(o, r);
        clean_core_is_line_local(o, wa, wr, h);
        if ascii_fast_path(o, a) {
            assert(wa == a && pass_input(o, wa) == a);
            pass_keeps_fast_path_text(o, a, h);
        }
        if ascii_fast_path(o, r) {
            assert(wr == r && pass_input(o, wr) == r);
            pass_keeps_fast_path_text(o, r, true);
        }
    }
}

/// The rest of a text after a position splits cleanly where the text does.
proof fn lemma_lines_skip(o: CleaningOptions, t: Seq<char>, m: int)
    requires
        0 <= m <= t.len(),
        lines_split_cleanly(o, t),
    ensures
        lines_split_cleanly(o, t.skip(m)),
{
    let u = t.skip(m);
    assert forall|j: int, k: int|
        0 <= j < k < u.len() && flush_boundary(u[k - 1]) implies splits_cleanly(
        o,
        #[trigger] u.subrange(j, k),
        u.skip(k),
    ) by {
        assert(u.subrange(j, k) =~= t.subrange(m + j, m + k));
        assert(u.skip(k) =~= t.skip(m + k));
        assert(u[k - 1] == t[m + k - 1]);
    }
}

/// The streamed output of a stream whose buffer holds a partial line, when
/// the input splits cleanly at its lines.
proof fn lemma_stream_lines(s: StreamState, chunks: Seq<Seq<char>>)
    requires
        (s.buffer + chunks.flatten()).len() <= u64::MAX,
        forall|i: int| 0 <= i < s.buffer.len() ==> !flush_boundary(#[trigger] s.buffer[i]),
        lines_split_cleanly(s.options, s.buffer + chunks.flatten()),
    ensures
        streamed(s, chunks) == cleaned(s.options, s.buffer + chunks.flatten(), s.has_emitted_output).0,
    decreases chunks.len(),
{
    let o = s.options;
    let h = s.has_emitted_output;
    let total = s.buffer + chunks.flatten();
    if chunks.len() == 0 {
        assert(total =~= s.buffer);
        if s.buffer.len() == 0 {
            assert(or_nothing(finished(s).1) =~= Seq::<char>::empty());
        }
    } else {
        let c0 = chunks[0];
        let rest = chunks.drop_first();
        assert(chunks.flatten() == c0 + rest.flatten());
        let buf = s.buffer + c0;
        assert(total =~= buf + rest.flatten());
        if c0.len() == 0 {
            assert(buf =~= s.buffer);
            lemma_stream_lines(s, rest);
            assert(or_nothing(fed(s, c0).1) + streamed(s, rest) =~= streamed(s, rest));
        } else {
            lemma_last_boundary(buf);
            match last_boundary(buf) {
                None => {
                    let next = StreamState { buffer: buf, ..s };
                    assert(next.buffer + rest.flatten() =~= total);
                    lemma_stream_lines(next, rest);
                    assert(or_nothing(fed(s, c0).1) + streamed(next, rest) =~= streamed(next, rest));
                },
                Some(k) => {
                    let line = buf.take(k + 1);
                    let r0 = buf.skip(k + 1);
                    let next = after_chunk(s, line, r0);
                    let out = cleaned(o, line, h).0;
                    assert(or_nothing(fed(s, c0).1) == out);
                    assert forall|i: int| 0 <= i < r0.len() implies !flush_boundary(#[trigger] r0[i]) by {
                        assert(r0[i] == buf[k + 1 + i]);
                    }
                    assert(total[k] == buf[k]);
                    if k + 1 == total.len() {
                        assert(rest.flatten().len() == 0);
                        lemma_empty_flatten(rest);
                        assert(line =~= total);
                        lemma_idle_stream(next, rest);
                        assert(out + streamed(next, rest) =~= out);
                    } else {
                        let tail = total.skip(k + 1);
                        assert(total.subrange(0, k + 1) =~= line);
                        assert(splits_cleanly(o, total.subrange(0, k + 1), total.skip(k + 1)));
                        assert(total =~= line + tail);
                        lemma_cleaned_split(o, line, tail, h);
                        assert(next.has_emitted_output);
                        assert(next.buffer + rest.flatten() =~= tail);
                        lemma_lines_skip(o, total, k + 1);
                        lemma_stream_lines(next, rest);
                    }
                },
            }
        }
    }
}

/// Streamed output equals batch output: feeding a fresh stream any chunking
/// of an input and then finishing it emits, all together, the batch-cleaned
/// text of the whole input. Stated over what the outside crates do: the
/// normalization and segmentation split the input at its line breaks as
/// UAX #15 and UAX #29 prescribe (with U+2028 or U+2029 in the input this
/// also needs space or line-ending normalization on, the options under which
/// the pass treats them as line breaks).
pub proof fn stream_matches_batch(o: CleaningOptions, chunks: Seq<Seq<char>>)
    requires
        lines_split_cleanly(o, chunks.flatten()),
        chunks.flatten().len() <= u64::MAX,
    ensures
        streamed(fresh_stream(o), chunks) == cleaned(o, chunks.flatten(), false).0,
{
    let s = fresh_stream(o);
    assert(s.buffer + chunks.flatten() =~= chunks.flatten());
    lemma_stream_lines(s, chunks);
}

} // verus!
