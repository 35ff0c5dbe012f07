# rehuman

Unicode-safe text cleaning and typographic normalization: hidden characters
removed, spaces, dashes, quotes and ellipses normalized, whitespace trimmed or
collapsed, line endings unified, and (in keyboard-only mode) everything else
folded, transliterated or dropped so that the output is keyboard-safe ASCII.

The library is written in Verus. Its functions carry `requires`/`ensures`
contracts over mathematical models, and Verus proves them.

## Layout

- `src/engine.rs` — the cleaning pass, specified as a fold of one step per
  grapheme cluster over an abstract scan state, and its executable form.
- `src/cleaner.rs` — `TextCleaner`, `clean`, `humanize` and Unicode
  normalization of the input.
- `src/stream.rs` — `StreamCleaner`, which cleans chunked input line by line,
  with what a stream emits over a whole input.
- `src/rewrite.rs` — keyboard-only rewriting of a cluster (compatibility
  folding, curated transliterations, the scoped long-tail fallback).
- `src/lines.rs` — folding line breaks to LF and stamping them out as CRLF or
  CR, with the line-break predicates.
- `src/options.rs`, `src/stats.rs` — options, presets, builder, counters.
- `src/sets.rs`, `src/tables.rs` — character classes and tables.
- `src/text.rs` — the calls into `unicode-segmentation`,
  `unicode-normalization` and `deunicode`, with their trusted contracts.
- `src/cli.rs` — the decisions of the command-line programs: presets,
  overrides, config schema, flag conflicts, boolean flag parsing.
- `src/accounting.rs` — change accounting: no reported change means the
  text is unchanged, and the change count is the sum of the counters.
- `src/locality.rs` — line locality of the pass: a line break settles all
  whitespace context, so cleaning text split after a line writes the two
  parts' cleanings one after the other; the ASCII fast path as a shortcut.
- `src/laws.rs` — properties of the library as a whole.
- `app/` — the `rehuman` and `ishuman` programs: argument parsing, files,
  config I/O, JSON stats.
- `tests/` — behavioural tests.
