use rehuman::{
    clean, humanize, CleaningOptions, EmojiPolicy, LineEndingStyle, NonAsciiPolicy,
    StreamCleaner, TextCleaner, UnicodeNormalizationMode,
};

#[test]
fn removes_hidden() {
    let c = TextCleaner::new(CleaningOptions {
        remove_hidden: true,
        ..CleaningOptions::minimal()
    });
    let out = c.clean("Hello\u{200B}World");
    assert_eq!(out.text, "HelloWorld");
    assert_eq!(out.stats.hidden_chars_removed, 1);
}

#[test]
fn removes_mongolian_vowel_separator() {
    let c = TextCleaner::new(CleaningOptions::default());
    let out = c.clean("Hello\u{180E}World");
    assert_eq!(out.text, "HelloWorld");
    assert!(out.stats.hidden_chars_removed >= 1);
}

#[test]
fn normalizes_spaces_and_dashes_quotes_and_ellipsis() {
    let c = TextCleaner::new(CleaningOptions::default());
    let out = c.clean("\u{201C}Hi\u{201D}\u{00A0}\u{2014} ok…");
    assert_eq!(out.text, "\"Hi\" - ok...");
    {
        assert!(out.stats.spaces_normalized >= 1);
        assert!(out.stats.dashes_normalized >= 1);
        assert!(out.stats.quotes_normalized >= 2);
        assert!(out.stats.other_normalized >= 1);
    }
}

#[test]
fn trims_trailing_ws() {
    let c = TextCleaner::new(CleaningOptions {
        remove_trailing_whitespace: true,
        ..CleaningOptions::minimal()
    });
    let out = c.clean("a  \n b\t\t\n");
    assert_eq!(out.text, "a\n b\n");
    assert!(out.stats.trailing_whitespace_removed >= 3);
}

#[test]
fn collapses_ws() {
    let c = TextCleaner::new(CleaningOptions {
        collapse_whitespace: true,
        ..CleaningOptions::minimal()
    });
    let out = c.clean("a    b\t\tc");
    assert_eq!(out.text, "a b c");
}

#[test]
fn keyboard_only_with_emoji_policy() {
    let c = TextCleaner::new(CleaningOptions {
        keyboard_only: true,
        emoji_policy: EmojiPolicy::Keep,
        ..CleaningOptions::minimal()
    });
    let out = c.clean("Hello😀世界");
    assert_eq!(out.text, "Hello😀");
    assert!(out.stats.non_keyboard_removed >= 2);
}

#[test]
fn normalize_eol_crlf_to_lf_and_back() {
    let c = TextCleaner::new(CleaningOptions {
        normalize_line_endings: Some(LineEndingStyle::Lf),
        ..CleaningOptions::minimal()
    });
    let out = c.clean("a\r\nb\rc\u{0085}");
    assert_eq!(out.text, "a\nb\nc\n");
    assert!(out.stats.line_endings_normalized >= 3);
}

#[test]
fn normalizes_unicode_line_separators() {
    let mut options = CleaningOptions::minimal();
    options.normalize_line_endings = Some(LineEndingStyle::Lf);
    let c = TextCleaner::new(options);
    let out = c.clean("a\u{2028}b\u{2029}c");
    assert_eq!(out.text, "a\nb\nc");
    assert_eq!(out.stats.line_endings_normalized, 2);
}

#[test]
fn restamping_counts_changes() {
    let mut options = CleaningOptions::minimal();
    options.normalize_line_endings = Some(LineEndingStyle::Crlf);
    let c = TextCleaner::new(options);
    let out = c.clean("a\nb\n");
    assert_eq!(out.text, "a\r\nb\r\n");
    assert_eq!(out.stats.line_endings_normalized, 2);
}

#[test]
fn default_cleaning_matches_keyboard_equivalent() {
    let out = clean("“Hello—world…”\u{00A0}😀");
    assert_eq!(out.text, "\"Hello-world...\"");
    {
        assert_eq!(out.stats.quotes_normalized, 2);
        assert_eq!(out.stats.dashes_normalized, 1);
        assert_eq!(out.stats.other_normalized, 1);
        assert_eq!(out.stats.spaces_normalized, 1);
        assert_eq!(out.stats.emojis_dropped, 1);
    }
    assert_eq!(out.changes_made, 7);
}

#[test]
fn keyboard_only_drops_non_ascii_and_emoji() {
    let cleaner = TextCleaner::new(CleaningOptions {
        keyboard_only: true,
        ..CleaningOptions::default()
    });
    let out = cleaner.clean("Ascii😀世界");
    assert_eq!(out.text, "Ascii");
    {
        assert_eq!(out.stats.emojis_dropped, 1);
        assert!(out.stats.non_keyboard_removed >= 2);
    }
}

#[test]
fn keyboard_only_folds_latin_diacritics_to_ascii() {
    let cleaner = TextCleaner::new(CleaningOptions::default());
    let out = cleaner.clean("Caf\u{00E9} d\u{00E9}j\u{00E0} vu");
    assert_eq!(out.text, "Cafe deja vu");
    assert!(out.stats.non_keyboard_transliterated >= 3);
}

#[test]
fn transliterates_non_decomposing_latin_letters() {
    let cleaner = TextCleaner::new(CleaningOptions::default());
    let out = cleaner.clean("Stra\u{00DF}e \u{00C6}sir \u{00F8}l \u{0153}uvre");
    assert_eq!(out.text, "Strasse AEsir ol oeuvre");
    assert!(out.stats.non_keyboard_transliterated >= 4);
}

#[test]
fn non_ascii_policy_modes_control_behavior() {
    let drop = TextCleaner::new(
        CleaningOptions::builder()
            .non_ascii_policy(NonAsciiPolicy::Drop)
            .build(),
    )
    .clean("Stra\u{00DF}e \u{00BD} \u{2122}");
    assert_eq!(drop.text, "Strae");

    // ½ -> "1/2" and ™ -> "TM" come from NFKD.
    {
        let fold = TextCleaner::new(
            CleaningOptions::builder()
                .non_ascii_policy(NonAsciiPolicy::Fold)
                .build(),
        )
        .clean("Stra\u{00DF}e \u{00BD} \u{2122}");
        assert_eq!(fold.text, "Strae 1/2 TM");

        let transliterate = TextCleaner::new(
            CleaningOptions::builder()
                .non_ascii_policy(NonAsciiPolicy::Transliterate)
                .build(),
        )
        .clean("Stra\u{00DF}e \u{00BD} \u{2122}");
        assert_eq!(transliterate.text, "Strasse 1/2 TM");
        assert!(transliterate.stats.non_keyboard_transliterated >= 3);
    }
}

#[test]
fn extended_keyboard_allowlist_can_preserve_curated_symbols() {
    let default = TextCleaner::new(
        CleaningOptions::builder()
            .non_ascii_policy(NonAsciiPolicy::Drop)
            .build(),
    )
    .clean("€ and ™");
    assert_eq!(default.text, "and");

    let extended = TextCleaner::new(
        CleaningOptions::builder()
            .extended_keyboard(true)
            .non_ascii_policy(NonAsciiPolicy::Drop)
            .build(),
    )
    .clean("€ and ™");
    assert_eq!(extended.text, "€ and");
}

#[test]
fn preserve_joiners_toggle_controls_zwj_zwnj_retention() {
    let text = "می\u{200C}خواهم";
    let default =
        TextCleaner::new(CleaningOptions::builder().keyboard_only(false).build()).clean(text);
    assert!(!default.text.contains('\u{200C}'));

    let preserved = TextCleaner::new(
        CleaningOptions::builder()
            .keyboard_only(false)
            .preserve_joiners(true)
            .build(),
    )
    .clean(text);
    assert!(preserved.text.contains('\u{200C}'));
}

#[test]
fn ts_whitespace_scenarios() {
    let input = "Hello\u{200B}\u{00A0}World!  ";

    let cleaner = TextCleaner::new(CleaningOptions::default());
    let out = cleaner.clean(input);
    assert_eq!(out.text, "Hello World!");
    assert_eq!(out.changes_made, 4);

    let cleaner = TextCleaner::new(CleaningOptions {
        remove_trailing_whitespace: false,
        ..CleaningOptions::default()
    });
    let out = cleaner.clean(input);
    assert_eq!(out.text, "Hello World!  ");
    assert_eq!(out.changes_made, 2);

    let cleaner = TextCleaner::new(CleaningOptions {
        remove_hidden: false,
        keyboard_only: false,
        ..CleaningOptions::default()
    });
    let out = cleaner.clean(input);
    assert_eq!(out.text, "Hello\u{200B} World!");
    assert_eq!(out.changes_made, 3);

    let cleaner = TextCleaner::new(CleaningOptions {
        normalize_spaces: false,
        keyboard_only: false,
        ..CleaningOptions::default()
    });
    let out = cleaner.clean(input);
    assert_eq!(out.text, "Hello\u{00A0}World!");
    assert_eq!(out.changes_made, 3);
}

#[test]
fn ts_dashes_case() {
    let cleaner = TextCleaner::new(CleaningOptions::default());
    let out = cleaner.clean("I — super — man – 💪");
    assert_eq!(out.text, "I - super - man -");
    {
        assert_eq!(out.stats.dashes_normalized, 3);
        assert_eq!(out.stats.emojis_dropped, 1);
    }
    assert_eq!(out.changes_made, 5);
}

#[test]
fn ts_quotes_case() {
    let cleaner = TextCleaner::new(CleaningOptions::default());
    let out = cleaner.clean("Angular “quote” «marks» looks„ like Christmas «« tree");
    assert_eq!(
        out.text,
        "Angular \"quote\" \"marks\" looks\" like Christmas \"\" tree"
    );
    assert_eq!(out.stats.quotes_normalized, 7);
    assert_eq!(out.changes_made, 7);
}

#[test]
fn maps_additional_quotes_and_primes() {
    let cleaner = TextCleaner::new(CleaningOptions::default());
    let out = cleaner.clean("‹left› ‟double‟ ′prime′ ″double″");
    assert_eq!(out.text, "'left' \"double\" 'prime' \"double\"");
    assert!(out.stats.quotes_normalized >= 6);
}

#[test]
fn fraction_slash_maps_to_ascii() {
    let cleaner = TextCleaner::new(CleaningOptions::default());
    let out = cleaner.clean("1\u{2044}2");
    assert_eq!(out.text, "1/2");
    assert_eq!(out.stats.other_normalized, 1);
}

#[test]
fn keeps_variation_selector_for_emoji() {
    let cleaner = TextCleaner::new(CleaningOptions {
        keyboard_only: false,
        ..CleaningOptions::default()
    });
    let out = cleaner.clean("👍\u{FE0F}");
    assert_eq!(out.text, "👍\u{FE0F}");
    assert_eq!(out.stats.hidden_chars_removed, 0);
}

#[test]
fn drops_emoji_sequence_when_policy_drop() {
    let cleaner = TextCleaner::new(CleaningOptions {
        keyboard_only: true,
        emoji_policy: EmojiPolicy::Drop,
        ..CleaningOptions::default()
    });
    let out = cleaner.clean("👍\u{FE0F}");
    assert_eq!(out.text, "");
    assert_eq!(out.stats.emojis_dropped, 1);
}

#[test]
fn code_safe_preset_fields_match_cli_contract() {
    let options = CleaningOptions::code_safe();
    assert!(options.remove_hidden);
    assert!(options.remove_trailing_whitespace);
    assert!(options.normalize_spaces);
    assert!(!options.normalize_dashes);
    assert!(!options.normalize_quotes);
    assert!(!options.normalize_other);
    assert!(!options.keyboard_only);
    assert_eq!(options.emoji_policy, EmojiPolicy::Keep);
    assert_eq!(options.non_ascii_policy, NonAsciiPolicy::Transliterate);
    assert!(options.preserve_joiners);
    assert!(options.remove_control_chars);
    assert!(!options.collapse_whitespace);
    assert_eq!(options.normalize_line_endings, None);
    assert_eq!(
        options.unicode_normalization,
        UnicodeNormalizationMode::Disabled
    );
}

// ---- F2: negation must never be inverted ----

#[test]
fn negated_operators_are_not_inverted() {
    let c = TextCleaner::new(CleaningOptions::default());
    // The three operators whose ASCII base survives NFKD and would otherwise
    // flip; output must carry the negation, never the bare base operator.
    assert_eq!(c.clean("a \u{2260} b").text, "a != b"); // was "a = b"
    assert_eq!(c.clean("a \u{226E} b").text, "a !< b"); // was "a < b"
    assert_eq!(c.clean("a \u{226F} b").text, "a !> b"); // was "a > b"
    assert_ne!(c.clean("\u{2260}").text, "=");
}

#[test]
fn fold_mode_also_preserves_negation() {
    let fold = TextCleaner::new(
        CleaningOptions::builder()
            .non_ascii_policy(NonAsciiPolicy::Fold)
            .build(),
    );
    // compat_override runs before NFKD in Fold too, so ≠ stays "!=", not "=".
    assert_eq!(fold.clean("a \u{2260} b").text, "a != b");
}

// ---- F3: symbols transliterate instead of being deleted ----

#[test]
fn arrows_transliterate_to_ascii() {
    let c = TextCleaner::new(CleaningOptions::default());
    assert_eq!(c.clean("a \u{2192} b").text, "a -> b"); // →
    assert_eq!(c.clean("a \u{2190} b").text, "a <- b"); // ←
    assert_eq!(c.clean("a \u{2194} b").text, "a <-> b"); // ↔
    assert_eq!(c.clean("a \u{21D2} b").text, "a ==> b"); // ⇒
    assert_eq!(c.clean("a \u{27F6} b").text, "a --> b"); // ⟶ (long)
}

#[test]
fn math_and_relational_operators_transliterate() {
    let c = TextCleaner::new(CleaningOptions::default());
    assert_eq!(c.clean("a \u{2264} b").text, "a <= b"); // ≤
    assert_eq!(c.clean("a \u{2265} b").text, "a >= b"); // ≥
    assert_eq!(c.clean("a \u{2248} b").text, "a ~= b"); // ≈
    assert_eq!(c.clean("5 \u{00B1} 1").text, "5 +/- 1"); // ±
}

#[test]
fn bullets_geometric_and_marks_transliterate() {
    let c = TextCleaner::new(CleaningOptions::default());
    assert_eq!(c.clean("\u{2022} item").text, "- item"); // •
    assert_eq!(c.clean("\u{2605} star").text, "* star"); // ★
    assert_eq!(c.clean("\u{00A9} 2026").text, "(c) 2026"); // © (was dropped as "emoji")
    assert_eq!(c.clean("Acme\u{00AE}").text, "Acme(r)"); // ®
}

#[test]
fn long_tail_symbols_use_deunicode_fallback() {
    // Box-drawing is not in the curated table; it reaches deunicode via the
    // widened symbol gate (─ -> "-", │ -> "|", ┌ -> "+").
    let c = TextCleaner::new(CleaningOptions::default());
    assert_eq!(c.clean("\u{2500}\u{2502}\u{250C}").text, "-|+");
}

#[test]
fn scripts_still_drop_and_are_not_romanized() {
    // The symbol gate must not enable deunicode for letter scripts. Greek is
    // the one deliberate exception (spelled out; see greek_letters tests).
    let c = TextCleaner::new(CleaningOptions::default());
    assert_eq!(c.clean("ok \u{4E16}\u{754C}").text, "ok"); // 世界 dropped, not "Shi Jie"
    assert_eq!(c.clean("ok \u{0430}\u{0431}").text, "ok"); // Cyrillic dropped
    assert_eq!(c.clean("ok \u{0645}\u{0631}").text, "ok"); // Arabic dropped
}

// ---- Greek letters spell out to names (math-symbol usage) ----

#[test]
fn greek_letters_spell_out_to_names() {
    let c = TextCleaner::new(CleaningOptions::default());
    assert_eq!(c.clean("\u{03BB} = 0.5").text, "lambda = 0.5");
    assert_eq!(
        c.clean("\u{0394}x \u{2264} \u{03B5}").text,
        "Deltax <= epsilon"
    );
    assert_eq!(c.clean("\u{03C0} \u{2248} 3.14").text, "pi ~= 3.14");
    assert_eq!(c.clean("\u{03A3} over \u{03C3}").text, "Sigma over sigma");
    assert_eq!(c.clean("\u{03D5}").text, "phi"); // math phi symbol variant
    assert_eq!(c.clean("\u{03AD}").text, "epsilon"); // monotonic accented
}

// ---- Meaning-bearing emoji marks transliterate; pictures still drop ----

#[test]
fn semantic_emoji_marks_transliterate() {
    let c = TextCleaner::new(CleaningOptions::default());
    assert_eq!(c.clean("\u{2705} tests pass").text, "[x] tests pass");
    assert_eq!(c.clean("\u{274C} build fails").text, "[ ] build fails");
    assert_eq!(c.clean("\u{26A0}\u{FE0F} careful").text, "[!] careful"); // with VS16
    assert_eq!(c.clean("\u{2B50}\u{2B50}\u{2B50}").text, "***");
    assert_eq!(c.clean("done\u{2757}").text, "done!");
    // Pictorial emoji still drop.
    assert_eq!(c.clean("ok \u{1F44D}\u{2702}").text, "ok");
}

// ---- Latin-1 punctuation / currency (below the block gates) ----

#[test]
fn latin1_punctuation_and_currency_transliterate() {
    let c = TextCleaner::new(CleaningOptions::default());
    assert_eq!(c.clean("50\u{00A2}").text, "50c");
    assert_eq!(c.clean("\u{00A3}5").text, "GBP5");
    assert_eq!(c.clean("\u{00A5}100").text, "JPY100");
    assert_eq!(c.clean("a\u{00A6}b").text, "a|b");
    assert_eq!(c.clean("\u{00A7} 230").text, "S 230");
    assert_eq!(c.clean("\u{00B6} 4").text, "P 4");
}

// ---- Math extras where deunicode alone was wrong or absent ----

#[test]
fn math_extras_transliterate() {
    let c = TextCleaner::new(CleaningOptions::default());
    assert_eq!(c.clean("x \u{2254} 5").text, "x := 5"); // ≔ (deunicode: "=")
    assert_eq!(c.clean("A \u{21CC} B").text, "A <=> B"); // ⇌ (deunicode: "=")
    assert_eq!(c.clean("f \u{2218} g").text, "f o g"); // ∘ (deunicode: "*")
    assert_eq!(c.clean("a \u{226A} b").text, "a << b"); // ≪ via gate fallback
    assert_eq!(c.clean("\u{27E8}x, y\u{27E9}").text, "<x, y>"); // ⟨⟩ via gate
    assert_eq!(c.clean("5\u{2030}").text, "50/00"); // per mille
}

// ---- Phonetic Latin and modifier apostrophes ----

#[test]
fn phonetic_latin_and_modifier_apostrophes() {
    let c = TextCleaner::new(CleaningOptions::default());
    assert_eq!(c.clean("don\u{02BC}t").text, "don't"); // modifier apostrophe
    assert_eq!(c.clean("Hawai\u{02BB}i").text, "Hawai'i"); // okina, not a backtick
    assert_eq!(c.clean("37\u{02DA}C").text, "37degC"); // spacing ring as degree
    assert_eq!(c.clean("\u{0259}").text, "@"); // IPA schwa, SAMPA-style
}

// ---- F1: ASCII fast path must respect keyboard_only ----

#[test]
fn fast_path_respects_keyboard_only() {
    // minimal() leaves trim/collapse/control off, which is what makes the
    // all-ASCII fast path reachable; keyboard_only must still strip C0/DEL.
    let c = TextCleaner::new(CleaningOptions {
        keyboard_only: true,
        ..CleaningOptions::minimal()
    });
    let out = c.clean("a\u{0001}b\u{007F}c");
    assert_eq!(out.text, "abc");
}

// ---- F4: a dropped emoji is billed once, not also as hidden removals ----

#[test]
fn dropped_emoji_not_double_counted() {
    let c = TextCleaner::new(CleaningOptions {
        keyboard_only: true,
        emoji_policy: EmojiPolicy::Drop,
        ..CleaningOptions::default()
    });
    let out = c.clean("\u{1F44D}\u{FE0F}"); // 👍 + VS16
    assert_eq!(out.text, "");
    assert_eq!(out.changes_made, 1);
    {
        assert_eq!(out.stats.emojis_dropped, 1);
        assert_eq!(out.stats.hidden_chars_removed, 0); // VS16 not separately billed
    }

    let family = c.clean("\u{1F468}\u{200D}\u{1F469}\u{200D}\u{1F467}"); // ZWJ family
    assert_eq!(family.text, "");
    assert_eq!(family.changes_made, 1);
    {
        assert_eq!(family.stats.emojis_dropped, 1);
        assert_eq!(family.stats.hidden_chars_removed, 0); // two interior ZWJ not billed
    }
}

// ---- F7: U+2028/U+2029 fold to \n without normalize_line_endings ----

#[test]
fn line_separators_fold_to_newline_without_line_ending_option() {
    // Default preset (keyboard_only, normalize_line_endings = None).
    let out = clean("a\u{2028}b\u{2029}c");
    assert_eq!(out.text, "a\nb\nc");
    assert_eq!(out.stats.spaces_normalized, 2);

    // Non-keyboard mode: previously passed through unchanged.
    let c = TextCleaner::new(CleaningOptions::builder().keyboard_only(false).build());
    assert_eq!(c.clean("a\u{2028}b").text, "a\nb");

    // Trailing whitespace before the separator trims like a real newline.
    assert_eq!(clean("a \u{2028}b").text, "a\nb");

    // humanize collapses whitespace but keeps the folded newline.
    assert_eq!(humanize("x\u{2028}y").text, "x\ny");
}

#[test]
fn stream_cleaner_flushes_on_unicode_line_separators() {
    // Since batch cleaning treats U+2028/U+2029 as line breaks, streaming
    // must flush on them too: a stream delimited only by these separators
    // (no LF byte anywhere) has to emit per line, not buffer to finish().
    for sep in ['\u{2028}', '\u{2029}'] {
        let mut stream = StreamCleaner::new(CleaningOptions::default());
        let mut out = String::new();
        let input = format!("alpha{sep}beta");
        let flushed = stream
            .feed(&input, &mut out)
            .unwrap_or_else(|| panic!("U+{:04X} must be a flush boundary", sep as u32));
        assert_eq!(flushed.text, "alpha\n");
        let mut tail = String::new();
        let finished = stream.finish(&mut tail).expect("buffered remainder");
        assert_eq!(finished.text, "beta");
    }
}

// ---- idempotence: clean(clean(x)) == clean(x) on representative input ----

#[test]
fn cleaning_is_idempotent_on_symbol_samples() {
    let c = TextCleaner::new(CleaningOptions::default());
    for s in [
        "a \u{2192} b \u{2264} c",
        "\u{2260} \u{00A9} \u{2605} \u{2022}",
        "caf\u{00E9} \u{2014} \u{00BD}",
        "\u{1F44D}\u{FE0F} done",
        "\u{00B8}\u{00B4}\u{00A8}", // spacing diacritics: the F8 regression
        "\u{03BB} \u{03A3} \u{2705} \u{274C} \u{00A3} \u{00A7}",
        "\u{27E8}x\u{27E9} don\u{02BC}t \u{0259}",
    ] {
        let once = c.clean(s).text.into_owned();
        let twice = c.clean(&once).text.into_owned();
        assert_eq!(once, twice, "not idempotent for {s:?}");
    }
}
