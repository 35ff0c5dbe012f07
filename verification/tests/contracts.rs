use std::borrow::Cow;
use rehuman::rewrite::rewrite_cluster_to_keyboard_ascii;
use rehuman::cli::{
    check_rehuman_flags, options_from_config, options_from_preset, parse_bool_flag,
    resolve_options, CliError, ConfigFile, DependentFlag, EmojiPolicyArg, FlagConflict,
    LineEndingChoice, NonAsciiPolicyArg, PresetArg, RehumanFlag, RehumanFlags,
    SerializableOptions, SharedCliOptions, UnicodeNormalizationChoice, CONFIG_VERSION,
};
use rehuman::{
    clean, humanize, is_emoji, is_extended_keyboard_char, is_hidden_char, is_keyboard_ascii,
    CleaningOptions, CleaningStats, EmojiPolicy, LineEndingStyle, NonAsciiPolicy, StreamCleaner,
    TextCleaner, UnicodeNormalizationMode,
};

fn no_flags() -> SharedCliOptions {
    SharedCliOptions {
        preset: None,
        remove_hidden: None,
        remove_trailing_whitespace: None,
        normalize_spaces: None,
        normalize_dashes: None,
        normalize_quotes: None,
        normalize_other: None,
        keyboard_only: None,
        extended_keyboard: None,
        keep_emoji: false,
        emoji_policy: None,
        non_ascii_policy: None,
        preserve_joiners: None,
        remove_control_chars: None,
        collapse_whitespace: None,
        line_endings: None,
        unicode_normalization: None,
        config: None,
    }
}

const MIXED: &str = "“Zoë” — naïve café ½ → ≤ 😀👍🏽 Ж λ \u{200B}\u{00A0}x\u{2028}end\r\n\u{0007}";

#[test]
fn keyboard_only_output_is_keyboard_ascii_on_mixed_input() {
    for policy in [NonAsciiPolicy::Drop, NonAsciiPolicy::Fold, NonAsciiPolicy::Transliterate] {
        let cleaner = TextCleaner::new(
            CleaningOptions::builder()
                .keyboard_only(true)
                .emoji_policy(EmojiPolicy::Drop)
                .non_ascii_policy(policy)
                .build(),
        );
        let out = cleaner.clean(MIXED);
        assert!(out.text.chars().all(is_keyboard_ascii), "{:?}", out.text);
    }
}

#[test]
fn extended_keyboard_output_stays_in_allowlist() {
    let cleaner = TextCleaner::new(
        CleaningOptions::builder()
            .keyboard_only(true)
            .extended_keyboard(true)
            .normalize_dashes(false)
            .normalize_other(false)
            .build(),
    );
    let out = cleaner.clean("€5 — § 3… ± ° Ж 😀");
    assert!(out
        .text
        .chars()
        .all(|c| is_keyboard_ascii(c) || is_extended_keyboard_char(c)));
    assert!(out.text.contains('€'));
    assert!(out.text.contains('—'));
}

#[test]
fn lf_line_endings_leave_no_other_breaks() {
    let cleaner = TextCleaner::new(
        CleaningOptions::builder()
            .normalize_line_endings(Some(LineEndingStyle::Lf))
            .build(),
    );
    let out = cleaner.clean("a\r\nb\rc\u{2028}d\u{2029}e\n");
    assert_eq!(out.text, "a\nb\nc\nd\ne\n");
    assert!(!out.text.contains('\r'));
}

#[test]
fn crlf_restamping_counts_each_rewritten_break() {
    let cleaner = TextCleaner::new(
        CleaningOptions::builder()
            .normalize_line_endings(Some(LineEndingStyle::Crlf))
            .build(),
    );
    let out = cleaner.clean("a\nb\r\nc\n");
    assert_eq!(out.text, "a\r\nb\r\nc\r\n");
    assert_eq!(out.stats.line_endings_normalized, 2);
    assert_eq!(out.changes_made, 2);
}

#[test]
fn trailing_whitespace_count_is_exact() {
    let out = clean("a  \t\nb \n");
    assert_eq!(out.text, "a\nb\n");
    assert_eq!(out.stats.trailing_whitespace_removed, 4);
    assert_eq!(out.changes_made, 4);
}

#[test]
fn hidden_character_count_is_exact() {
    let out = clean("a\u{200B}b\u{FEFF}c\u{2060}");
    assert_eq!(out.text, "abc");
    assert_eq!(out.stats.hidden_chars_removed, 3);
}

#[test]
fn ascii_input_is_returned_unchanged() {
    let cleaner = TextCleaner::new(
        CleaningOptions::builder()
            .remove_trailing_whitespace(false)
            .remove_control_chars(false)
            .build(),
    );
    let out = cleaner.clean("plain ascii  \n");
    assert_eq!(out.text, "plain ascii  \n");
    assert_eq!(out.changes_made, 0);
    assert_eq!(out.stats, CleaningStats::default());
}

#[test]
fn empty_input_gives_empty_output() {
    let out = clean("");
    assert_eq!(out.text, "");
    assert_eq!(out.changes_made, 0);
}

#[test]
fn try_clean_agrees_with_clean() {
    let cleaner = TextCleaner::new(CleaningOptions::humanize());
    let a = cleaner.clean(MIXED);
    let b = cleaner.try_clean(MIXED).expect("normalization is available");
    assert_eq!(a.text, b.text);
    assert_eq!(a.changes_made, b.changes_made);
    assert_eq!(a.stats, b.stats);
    let mut buffer = String::from("stale");
    let c = cleaner.try_clean_into(MIXED, &mut buffer).expect("normalization is available");
    assert_eq!(buffer, a.text);
    assert_eq!(c.text, a.text);
}

#[test]
fn clean_into_fills_the_buffer() {
    let cleaner = TextCleaner::new(CleaningOptions::default());
    let mut buffer = String::from("old contents");
    let r = cleaner.clean_into("“hi”", &mut buffer);
    assert_eq!(buffer, "\"hi\"");
    assert_eq!(r.text, "\"hi\"");
    assert_eq!(r.stats.quotes_normalized, 2);
}

#[test]
fn prior_output_keeps_leading_whitespace_after_dropped_cluster() {
    let cleaner = TextCleaner::new(CleaningOptions::default());
    let fresh = cleaner.try_clean_with_context("😀 x", false).unwrap();
    assert_eq!(fresh.text, "x");
    let continued = cleaner.try_clean_with_context("😀 x", true).unwrap();
    assert_eq!(continued.text, " x");
}

#[test]
fn nfkc_normalization_reaches_the_output() {
    // U+FB01 LATIN SMALL LIGATURE FI decomposes to "fi" under NFKC.
    let out = humanize("\u{FB01}ne");
    assert_eq!(out.text, "fine");
}

#[test]
fn canonical_forms_reach_the_output() {
    let nfd = TextCleaner::new(
        CleaningOptions::builder()
            .keyboard_only(false)
            .unicode_normalization(UnicodeNormalizationMode::NFD)
            .build(),
    );
    assert_eq!(nfd.clean("\u{00E9}").text, "e\u{0301}");
    let nfc = TextCleaner::new(
        CleaningOptions::builder()
            .keyboard_only(false)
            .unicode_normalization(UnicodeNormalizationMode::NFC)
            .build(),
    );
    assert_eq!(nfc.clean("e\u{0301}").text, "\u{00E9}");
    let nfkd = TextCleaner::new(
        CleaningOptions::builder()
            .keyboard_only(false)
            .unicode_normalization(UnicodeNormalizationMode::NFKD)
            .build(),
    );
    assert_eq!(nfkd.clean("\u{FB01}\u{00E9}").text, "fie\u{0301}");
}

#[test]
fn combining_sequence_folds_as_one_cluster() {
    let cleaner = TextCleaner::new(
        CleaningOptions::builder()
            .non_ascii_policy(NonAsciiPolicy::Fold)
            .build(),
    );
    let out = cleaner.clean("e\u{0301}t\u{00E9}");
    assert_eq!(out.text, "ete");
}

#[test]
fn deunicode_fallback_transliterates_long_tail_symbol() {
    let out = clean("\u{2122}");
    assert!(!out.text.is_empty());
    assert!(out.text.chars().all(is_keyboard_ascii));
}

#[test]
fn character_class_helpers() {
    assert!(is_hidden_char('\u{200B}'));
    assert!(is_hidden_char('\u{00AD}'));
    assert!(!is_hidden_char('a'));
    assert!(is_emoji('\u{1F600}'));
    assert!(!is_emoji('x'));
    assert!(is_keyboard_ascii('~'));
    assert!(is_keyboard_ascii('\t'));
    assert!(!is_keyboard_ascii('\u{0007}'));
    assert!(!is_keyboard_ascii('\u{00E9}'));
    assert!(is_extended_keyboard_char('\u{20AC}'));
    assert!(!is_extended_keyboard_char('a'));
}

#[test]
fn stream_emits_only_complete_lines() {
    let mut stream = StreamCleaner::new(CleaningOptions::balanced());
    let mut out = String::new();
    let first = stream.feed("first line \n", &mut out).expect("a complete line");
    assert_eq!(first.text, "first line\n");
    assert_eq!(out, "first line\n");
    assert!(stream.feed("second", &mut out).is_none());
    assert!(out.is_empty());
    let second = stream.feed(" line\n", &mut out).expect("a complete line");
    assert_eq!(second.text, "second line\n");
    assert!(stream.finish(&mut out).is_none());
    let summary = stream.summary();
    assert_eq!(summary.changes_made, 1);
    assert_eq!(summary.stats.trailing_whitespace_removed, 1);
}

#[test]
fn stream_finish_flushes_the_remainder() {
    let mut stream = StreamCleaner::new(CleaningOptions::default());
    let mut out = String::new();
    assert!(stream.feed("“tail”", &mut out).is_none());
    assert!(stream.feed("", &mut out).is_none());
    let last = stream.finish(&mut out).expect("buffered remainder");
    assert_eq!(last.text, "\"tail\"");
    assert_eq!(stream.summary().stats.quotes_normalized, 2);
}

#[test]
fn stream_matches_buffered_output_on_lf_lines() {
    let input = "“Hi”—x\nSecond line 😀\n";
    let batch = clean(input).text;
    let mut stream = StreamCleaner::new(CleaningOptions::default());
    let mut out = String::new();
    let mut streamed = String::new();
    for line in ["“Hi”—x\n", "Second line 😀\n"] {
        if let Some(r) = stream.feed(line, &mut out) {
            streamed.push_str(&r.text);
        }
    }
    if let Some(r) = stream.finish(&mut out) {
        streamed.push_str(&r.text);
    }
    assert_eq!(streamed, batch);
}

#[test]
fn stats_accumulate_adds_counters() {
    let mut a = CleaningStats::default();
    a.hidden_chars_removed = 2;
    a.emojis_dropped = 1;
    let mut b = CleaningStats::default();
    b.hidden_chars_removed = 3;
    b.quotes_normalized = 4;
    b.emojis_dropped = u64::MAX;
    a.accumulate(&b);
    assert_eq!(a.hidden_chars_removed, 5);
    assert_eq!(a.quotes_normalized, 4);
    assert_eq!(a.emojis_dropped, u64::MAX);
    assert_eq!(a.dashes_normalized, 0);
}

#[test]
fn builder_sets_every_field() {
    let o = CleaningOptions::builder()
        .remove_hidden(false)
        .remove_trailing_whitespace(false)
        .normalize_spaces(false)
        .normalize_dashes(false)
        .normalize_quotes(false)
        .normalize_other(false)
        .keyboard_only(false)
        .extended_keyboard(true)
        .emoji_policy(EmojiPolicy::Keep)
        .non_ascii_policy(NonAsciiPolicy::Fold)
        .preserve_joiners(true)
        .remove_control_chars(false)
        .collapse_whitespace(true)
        .normalize_line_endings(Some(LineEndingStyle::Cr))
        .unicode_normalization(UnicodeNormalizationMode::NFKD)
        .strip_bidi_controls(true)
        .build();
    assert!(!o.remove_hidden && !o.remove_trailing_whitespace && !o.normalize_spaces);
    assert!(!o.normalize_dashes && !o.normalize_quotes && !o.normalize_other);
    assert!(!o.keyboard_only && o.extended_keyboard && o.preserve_joiners);
    assert!(!o.remove_control_chars && o.collapse_whitespace && o.strip_bidi_controls);
    assert_eq!(o.emoji_policy, EmojiPolicy::Keep);
    assert_eq!(o.non_ascii_policy, NonAsciiPolicy::Fold);
    assert_eq!(o.normalize_line_endings, Some(LineEndingStyle::Cr));
    assert_eq!(o.unicode_normalization, UnicodeNormalizationMode::NFKD);
    assert_eq!(CleaningOptions::builder().build(), CleaningOptions::default());
}

#[test]
fn presets_match_their_documented_fields() {
    let d = CleaningOptions::default();
    assert!(d.keyboard_only && d.remove_hidden && !d.collapse_whitespace);
    assert_eq!(d.non_ascii_policy, NonAsciiPolicy::Transliterate);
    let m = CleaningOptions::minimal();
    assert!(m.remove_hidden && !m.keyboard_only && !m.normalize_quotes);
    let b = CleaningOptions::balanced();
    assert_eq!(b.unicode_normalization, UnicodeNormalizationMode::NFC);
    assert!(!b.keyboard_only);
    let h = CleaningOptions::humanize();
    assert_eq!(h.unicode_normalization, UnicodeNormalizationMode::NFKC);
    assert!(h.collapse_whitespace && !h.keyboard_only);
    let a = CleaningOptions::aggressive();
    assert_eq!(a.normalize_line_endings, Some(LineEndingStyle::Lf));
    assert!(a.keyboard_only && a.collapse_whitespace && a.strip_bidi_controls);
    assert_eq!(options_from_preset(PresetArg::Aggressive), a);
    assert_eq!(options_from_preset(PresetArg::CodeSafe), CleaningOptions::code_safe());
}

#[test]
fn config_round_trip_keeps_options() {
    for o in [
        CleaningOptions::default(),
        CleaningOptions::minimal(),
        CleaningOptions::balanced(),
        CleaningOptions::humanize(),
        CleaningOptions::code_safe(),
        CleaningOptions::builder()
            .normalize_line_endings(Some(LineEndingStyle::Crlf))
            .unicode_normalization(UnicodeNormalizationMode::NFD)
            .non_ascii_policy(NonAsciiPolicy::Drop)
            .build(),
    ] {
        let payload = SerializableOptions::from_cleaning_options(&o);
        assert_eq!(payload.to_cleaning_options(), o);
        let config = ConfigFile { version: CONFIG_VERSION, options: payload };
        assert_eq!(options_from_config(&config), Ok(o));
        assert_eq!(SerializableOptions::from_cleaning_options(&payload.to_cleaning_options()), payload);
    }
}

#[test]
fn config_payload_values_convert() {
    let payload = SerializableOptions {
        emoji_policy: EmojiPolicyArg::Keep,
        non_ascii_policy: NonAsciiPolicyArg::Fold,
        line_endings: LineEndingChoice::Auto,
        unicode_normalization: UnicodeNormalizationChoice::Disabled,
        ..SerializableOptions::default()
    };
    let o = payload.to_cleaning_options();
    assert_eq!(o.emoji_policy, EmojiPolicy::Keep);
    assert_eq!(o.non_ascii_policy, NonAsciiPolicy::Fold);
    assert_eq!(o.normalize_line_endings, None);
    assert_eq!(o.unicode_normalization, UnicodeNormalizationMode::Disabled);
}

#[test]
fn unsupported_config_version_is_rejected() {
    let config = ConfigFile { version: 2, options: SerializableOptions::default() };
    assert_eq!(
        options_from_config(&config),
        Err(CliError::UnsupportedConfigVersion { found: 2, expected: 1 })
    );
}

#[test]
fn keyboard_only_dependent_flags_are_rejected_without_keyboard_mode() {
    let mut cli = no_flags();
    cli.keyboard_only = Some(false);
    cli.emoji_policy = Some(EmojiPolicyArg::Drop);
    assert_eq!(
        resolve_options(None, &cli),
        Err(CliError::KeyboardOnlyRequired { flag: DependentFlag::EmojiPolicy })
    );

    let mut cli = no_flags();
    cli.keyboard_only = Some(false);
    cli.keep_emoji = true;
    assert_eq!(
        resolve_options(None, &cli),
        Err(CliError::KeyboardOnlyRequired { flag: DependentFlag::EmojiPolicy })
    );

    let mut cli = no_flags();
    cli.preset = Some(PresetArg::Balanced);
    cli.non_ascii_policy = Some(NonAsciiPolicyArg::Fold);
    assert_eq!(
        resolve_options(None, &cli),
        Err(CliError::KeyboardOnlyRequired { flag: DependentFlag::NonAsciiPolicy })
    );

    let mut cli = no_flags();
    cli.keyboard_only = Some(false);
    cli.extended_keyboard = Some(true);
    assert_eq!(
        resolve_options(None, &cli),
        Err(CliError::KeyboardOnlyRequired { flag: DependentFlag::ExtendedKeyboard })
    );
}

#[test]
fn resolution_layers_config_preset_and_overrides() {
    let cli = no_flags();
    assert_eq!(resolve_options(None, &cli), Ok(CleaningOptions::default()));
    assert_eq!(
        resolve_options(Some(CleaningOptions::minimal()), &cli),
        Ok(CleaningOptions::minimal())
    );

    let mut cli = no_flags();
    cli.preset = Some(PresetArg::Humanize);
    cli.collapse_whitespace = Some(false);
    cli.line_endings = Some(LineEndingChoice::Crlf);
    let resolved = resolve_options(Some(CleaningOptions::minimal()), &cli).unwrap();
    let expected = CleaningOptions {
        collapse_whitespace: false,
        normalize_line_endings: Some(LineEndingStyle::Crlf),
        ..CleaningOptions::humanize()
    };
    assert_eq!(resolved, expected);

    let mut cli = no_flags();
    cli.keep_emoji = true;
    let resolved = resolve_options(None, &cli).unwrap();
    assert_eq!(resolved.emoji_policy, EmojiPolicy::Keep);
}

#[test]
fn bool_flags_parse_flexibly() {
    for v in ["true", "T", "1", "Yes", " y ", "ON"] {
        assert_eq!(parse_bool_flag(v), Ok(true), "{v}");
    }
    for v in ["false", "f", "0", "NO", "n", "off"] {
        assert_eq!(parse_bool_flag(v), Ok(false), "{v}");
    }
    assert_eq!(
        parse_bool_flag("maybe"),
        Err("invalid boolean value 'maybe'".to_string())
    );
}

#[test]
fn conflicting_flags_are_named() {
    let keep_and_policy = check_rehuman_flags(&RehumanFlags {
        keep_emoji: true,
        emoji_policy: true,
        ..RehumanFlags::default()
    });
    assert_eq!(
        keep_and_policy,
        Err(FlagConflict { flag: RehumanFlag::KeepEmoji, other: RehumanFlag::EmojiPolicy })
    );
    assert_eq!(RehumanFlag::EmojiPolicy.spelling(), "--emoji-policy");

    let stream_inplace = check_rehuman_flags(&RehumanFlags {
        stream: true,
        inplace: true,
        ..RehumanFlags::default()
    });
    assert_eq!(stream_inplace.unwrap_err().other.spelling(), "--inplace");

    let print_stats = check_rehuman_flags(&RehumanFlags {
        print_config: true,
        stats: true,
        ..RehumanFlags::default()
    });
    assert_eq!(print_stats.unwrap_err().other.spelling(), "--stats");

    let print_input = check_rehuman_flags(&RehumanFlags {
        print_config: true,
        input: true,
        ..RehumanFlags::default()
    });
    assert_eq!(print_input.unwrap_err().other, RehumanFlag::Input);

    assert_eq!(
        check_rehuman_flags(&RehumanFlags {
            print_config: true,
            ..RehumanFlags::default()
        }),
        Ok(())
    );
    assert_eq!(
        check_rehuman_flags(&RehumanFlags {
            stream: true,
            input: true,
            stats: true,
            ..RehumanFlags::default()
        }),
        Ok(())
    );
}

#[test]
fn no_changes_exactly_when_no_counters() {
    let cleaner = TextCleaner::new(CleaningOptions::default());
    for input in ["plain", "\u{1F44D}\u{FE0F}", "“x”", "a\u{200B}", "", "caf\u{00E9}\n"] {
        let out = cleaner.clean(input);
        assert_eq!(out.changes_made == 0, out.stats == CleaningStats::default(), "{input:?}");
    }
    let dropped = cleaner.clean("\u{1F468}\u{200D}\u{1F469}");
    assert_eq!(dropped.changes_made, 1);
    assert_eq!(dropped.stats.emojis_dropped, 1);
}

#[test]
fn every_break_follows_the_requested_style_after_transliteration() {
    let input = "\u{2192} x\r\ny\u{2028}z\u{0085}\u{00DF}\rend";
    for style in [LineEndingStyle::Lf, LineEndingStyle::Crlf, LineEndingStyle::Cr] {
        let cleaner = TextCleaner::new(
            CleaningOptions::builder()
                .non_ascii_policy(NonAsciiPolicy::Transliterate)
                .normalize_line_endings(Some(style))
                .build(),
        );
        let out = cleaner.clean(input).text;
        let chars: Vec<char> = out.chars().collect();
        assert!(!chars.iter().any(|c| matches!(c, '\u{85}' | '\u{2028}' | '\u{2029}')));
        match style {
            LineEndingStyle::Lf => {
                assert_eq!(out, "-> x\ny\nz\nss\nend");
            }
            LineEndingStyle::Crlf => {
                assert_eq!(out, "-> x\r\ny\r\nz\r\nss\r\nend");
            }
            LineEndingStyle::Cr => {
                assert_eq!(out, "-> x\ry\rz\rss\rend");
            }
        }
    }
}

#[test]
fn normalization_error_message_names_the_mode() {
    let err = rehuman::CleaningError::NormalizationUnavailable {
        requested: UnicodeNormalizationMode::NFC,
    };
    assert_eq!(
        err.message(),
        "Unicode normalization NFC requested but the 'unorm' feature is disabled"
    );
}

#[test]
fn cli_error_messages() {
    let emoji = CliError::KeyboardOnlyRequired { flag: DependentFlag::EmojiPolicy };
    assert_eq!(
        emoji.message(),
        "'--keep-emoji'/'--emoji-policy' require keyboard-only mode; set '--keyboard-only true' or remove the '--keep-emoji'/'--emoji-policy' flag"
    );
    let non_ascii = CliError::KeyboardOnlyRequired { flag: DependentFlag::NonAsciiPolicy };
    assert!(non_ascii
        .message()
        .starts_with("'--non-ascii-policy' requires keyboard-only mode"));
    let version = CliError::UnsupportedConfigVersion { found: 2, expected: 1 };
    assert_eq!(version.message(), "unsupported config version 2 (expected 1)");
    let big = CliError::UnsupportedConfigVersion { found: 40960, expected: 1 };
    assert_eq!(big.message(), "unsupported config version 40960 (expected 1)");
    let zero = CliError::UnsupportedConfigVersion { found: 0, expected: 1 };
    assert_eq!(zero.message(), "unsupported config version 0 (expected 1)");
}

#[test]
fn flag_conflict_message_names_both_flags() {
    let conflict = FlagConflict { flag: RehumanFlag::Stream, other: RehumanFlag::Inplace };
    assert_eq!(
        conflict.message(),
        "the argument '--stream' cannot be used with '--inplace'"
    );
}

#[test]
fn stats_report_lists_every_counter() {
    let out = clean("“a”\u{200B} \n");
    let report = rehuman::cli::stats_report(out.changes_made, &out.stats);
    assert_eq!(
        report,
        "changes_made: 4\n  hidden_chars_removed: 1\n  trailing_whitespace_removed: 1\n  spaces_normalized: 0\n  dashes_normalized: 0\n  quotes_normalized: 2\n  other_normalized: 0\n  control_chars_removed: 0\n  line_endings_normalized: 0\n  non_keyboard_removed: 0\n  non_keyboard_transliterated: 0\n  emojis_dropped: 0\n"
    );
}

#[test]
fn collapsing_whitespace_is_counted() {
    let cleaner = TextCleaner::new(CleaningOptions {
        collapse_whitespace: true,
        ..CleaningOptions::minimal()
    });
    let out = cleaner.clean("a  b\u{E9}");
    assert_eq!(out.text, "a b\u{E9}");
    assert_eq!(out.changes_made, 1);
    assert_eq!(out.stats.spaces_normalized, 1);
    let single = cleaner.clean("a b\u{E9}");
    assert_eq!(single.text, "a b\u{E9}");
    assert_eq!(single.changes_made, 0);
}

#[test]
fn tabs_are_kept_unless_collapsing() {
    let cleaner = TextCleaner::new(CleaningOptions::minimal());
    let out = cleaner.clean("\u{E9}\n\tx");
    assert_eq!(out.text, "\u{E9}\n\tx");
    assert_eq!(out.changes_made, 0);
    let collapsing = TextCleaner::new(CleaningOptions {
        collapse_whitespace: true,
        ..CleaningOptions::minimal()
    });
    let out = collapsing.clean("\u{E9}\n\tx");
    assert_eq!(out.text, "\u{E9}\n x");
    assert_eq!(out.changes_made, 1);
}

#[test]
fn unicode_normalization_rewrites_are_counted() {
    let cleaner = TextCleaner::new(CleaningOptions::balanced());
    let out = cleaner.clean("e\u{0301}");
    assert_eq!(out.text, "\u{00E9}");
    assert_eq!(out.changes_made, 1);
    assert_eq!(out.stats.other_normalized, 1);
    let unchanged = cleaner.clean("\u{00E9}t\u{00E9}");
    assert_eq!(unchanged.changes_made, 0);
    assert_eq!(unchanged.text, "\u{00E9}t\u{00E9}");
}

#[test]
fn stream_matches_batch_for_tab_lines() {
    let input = "\u{E9}\n\tx";
    let cleaner = TextCleaner::new(CleaningOptions::minimal());
    let batch = cleaner.clean(input).text;
    let mut stream = StreamCleaner::new(CleaningOptions::minimal());
    let mut out = String::new();
    let mut streamed = String::new();
    if let Some(r) = stream.feed(input, &mut out) {
        streamed.push_str(&r.text);
    }
    if let Some(r) = stream.finish(&mut out) {
        streamed.push_str(&r.text);
    }
    assert_eq!(streamed, batch);
}

#[test]
fn unchanged_input_is_borrowed() {
    let cleaner = TextCleaner::new(CleaningOptions::minimal());
    let plain = cleaner.clean("plain ascii");
    assert!(matches!(plain.text, Cow::Borrowed(_)));
    assert!(matches!(cleaner.clean("").text, Cow::Borrowed(_)));
    let rewritten = cleaner.clean("a\u{200B}b");
    assert!(matches!(rewritten.text, Cow::Owned(_)));
    assert_eq!(rewritten.text, "ab");
    let mut o = CleaningOptions::minimal();
    o.collapse_whitespace = true;
    let collapsing = TextCleaner::new(o);
    let untouched = collapsing.clean("caf\u{E9} au lait");
    assert_eq!(untouched.changes_made, 0);
    assert!(matches!(untouched.text, Cow::Borrowed(_)));
    assert_eq!(untouched.text, "caf\u{E9} au lait");
    let collapsed = collapsing.clean("a  b");
    assert_eq!(collapsed.changes_made, 1);
    assert!(matches!(collapsed.text, Cow::Owned(_)));
    assert_eq!(collapsed.text, "a b");
}

#[test]
fn cluster_pass_over_given_clusters() {
    let clusters = vec![
        vec!['\u{201C}'],
        vec!['h'],
        vec!['i'],
        vec!['\u{201D}'],
        vec![' '],
        vec!['\t'],
    ];
    let r = rehuman::engine::clean_clusters(&CleaningOptions::default(), &clusters, false);
    assert_eq!(r.out, vec!['"', 'h', 'i', '"']);
    assert_eq!(r.changes, 4);
    assert_eq!(r.stats.quotes_normalized, 2);
    assert_eq!(r.stats.trailing_whitespace_removed, 2);
}

#[test]
fn changes_equal_the_counter_sum() {
    let cleaner = TextCleaner::new(CleaningOptions {
        collapse_whitespace: true,
        normalize_line_endings: Some(LineEndingStyle::Crlf),
        unicode_normalization: UnicodeNormalizationMode::NFC,
        ..CleaningOptions::default()
    });
    let out = cleaner.clean("“e\u{0301}”  \u{2014}\u{200B} x\u{1F600}\n\ty \n");
    let s = out.stats;
    let sum = s.hidden_chars_removed
        + s.trailing_whitespace_removed
        + s.spaces_normalized
        + s.dashes_normalized
        + s.quotes_normalized
        + s.other_normalized
        + s.control_chars_removed
        + s.line_endings_normalized
        + s.non_keyboard_removed
        + s.non_keyboard_transliterated
        + s.emojis_dropped;
    assert!(out.changes_made > 0);
    assert_eq!(out.changes_made, sum);
}

#[test]
fn stream_from_cleaner_behaves_like_new() {
    let o = CleaningOptions::balanced();
    let mut a = StreamCleaner::from_cleaner(TextCleaner::new(o));
    let mut b = StreamCleaner::new(o);
    let mut out_a = String::new();
    let mut out_b = String::new();
    for chunk in ["one  \n", "tw", "o\u{00A0}\n", "three"] {
        let ra = a.feed(chunk, &mut out_a).map(|r| (r.text.into_owned(), r.changes_made));
        let rb = b.feed(chunk, &mut out_b).map(|r| (r.text.into_owned(), r.changes_made));
        assert_eq!(ra, rb);
    }
    let ra = a.finish(&mut out_a).map(|r| (r.text.into_owned(), r.changes_made));
    let rb = b.finish(&mut out_b).map(|r| (r.text.into_owned(), r.changes_made));
    assert_eq!(ra, rb);
    assert_eq!(a.summary().changes_made, b.summary().changes_made);
    assert_eq!(a.summary().stats, b.summary().stats);
}

fn stream_all(options: CleaningOptions, chunks: &[&str]) -> String {
    let mut stream = StreamCleaner::new(options);
    let mut out = String::new();
    let mut streamed = String::new();
    for chunk in chunks {
        if let Some(r) = stream.feed(chunk, &mut out) {
            streamed.push_str(&r.text);
        }
    }
    if let Some(r) = stream.finish(&mut out) {
        streamed.push_str(&r.text);
    }
    streamed
}

#[test]
fn one_line_streams_like_batch_in_any_chunking() {
    let line = "\u{201C}caf\u{E9}\u{A0}\u{2014} na\u{EF}ve\u{200B}\u{201D}  \n";
    let batch = TextCleaner::new(CleaningOptions::default()).clean(line).text.into_owned();
    assert_eq!(stream_all(CleaningOptions::default(), &[line]), batch);
    assert_eq!(stream_all(CleaningOptions::default(), &["\u{201C}ca", "", "f\u{E9}\u{A0}", "\u{2014} na\u{EF}ve", "\u{200B}\u{201D}  ", "\n"]), batch);
    let unterminated = "\u{2018}x\u{2019}\t y";
    let batch = TextCleaner::new(CleaningOptions::humanize()).clean(unterminated).text.into_owned();
    assert_eq!(stream_all(CleaningOptions::humanize(), &["\u{2018}x", "\u{2019}\t", " y"]), batch);
}

#[test]
fn ascii_fast_path_streams_through_unchanged() {
    let input = "first line\nsecond\tline\n\nlast";
    let batch = TextCleaner::new(CleaningOptions::minimal()).clean(input);
    assert_eq!(batch.text, input);
    assert_eq!(stream_all(CleaningOptions::minimal(), &["fir", "st line\nsec", "ond\tline\n", "\nla", "st"]), input);
}

#[test]
fn line_break_settles_whitespace_context() {
    let mut o = CleaningOptions::default();
    o.non_ascii_policy = NonAsciiPolicy::Drop;
    let cleaner = TextCleaner::new(o);
    let batch = cleaner.clean("\u{E9}\n  x").text.into_owned();
    assert_eq!(batch, "\n  x");
    assert_eq!(cleaner.clean("  x").text, "  x");
    assert_eq!(stream_all(o, &["\u{E9}\n", "  x"]), batch);
}

#[test]
fn cluster_pass_is_line_local() {
    let o = CleaningOptions { non_ascii_policy: NonAsciiPolicy::Drop, ..CleaningOptions::default() };
    let line = vec![vec!['\u{2018}'], vec!['a'], vec!['\u{E9}'], vec![' '], vec!['\r', '\n']];
    let rest = vec![vec!['\t'], vec!['\u{2014}'], vec!['b'], vec![' ']];
    let mut both = line.clone();
    both.extend(rest.iter().cloned());
    let whole = rehuman::engine::clean_clusters(&o, &both, false).out;
    let first = rehuman::engine::clean_clusters(&o, &line, false).out;
    let second = rehuman::engine::clean_clusters(&o, &rest, true).out;
    let mut joined = first.clone();
    joined.extend(second.iter().cloned());
    assert_eq!(whole, joined);
    assert_eq!(whole, vec!['\'', 'a', '\r', '\n', '\t', '-', 'b']);
}

#[test]
fn multi_line_stream_matches_batch() {
    let input = "\u{201C}caf\u{E9}\u{201D}  \r\nsecond\u{A0}line\u{2026} \u{2028}\t\u{2014}third\u{200B}\n\nlast \u{1F600} ";
    let chunkings: [&[&str]; 3] = [
        &[input],
        &["\u{201C}ca", "f\u{E9}\u{201D}  \r", "\nsecond\u{A0}li", "ne\u{2026} \u{2028}", "\t\u{2014}third\u{200B}\n", "\nlast \u{1F600} "],
        &["\u{201C}caf\u{E9}\u{201D}  \r\nsecond\u{A0}line\u{2026} \u{2028}\t\u{2014}third\u{200B}\n\n", "", "last \u{1F600} "],
    ];
    let option_sets = [
        CleaningOptions::default(),
        CleaningOptions::humanize(),
        CleaningOptions { normalize_line_endings: Some(LineEndingStyle::Crlf), ..CleaningOptions::balanced() },
        CleaningOptions { collapse_whitespace: true, normalize_spaces: true, unicode_normalization: UnicodeNormalizationMode::NFKC, ..CleaningOptions::minimal() },
    ];
    for o in option_sets {
        let batch = TextCleaner::new(o).clean(input).text.into_owned();
        for chunks in chunkings {
            assert_eq!(stream_all(o, chunks), batch);
        }
    }
}

#[test]
fn typographic_marks_between_letters_become_ascii() {
    assert_eq!(clean("a\u{A0}b").text, "a b");
    assert_eq!(clean("a\u{3000}b").text, "a b");
    assert_eq!(clean("x\u{201C}y").text, "x\"y");
    assert_eq!(clean("x\u{2019}y").text, "x'y");
    assert_eq!(clean("a\u{2014}b").text, "a-b");
    assert_eq!(clean("\u{2212}").text, "-");
    assert_eq!(clean("-").text, "-");
}

#[test]
fn hidden_chars_are_exactly_the_default_ignorable_ranges() {
    let ranges: [(u32, u32); 17] = [
        (0xAD, 0xAD),
        (0x34F, 0x34F),
        (0x61C, 0x61C),
        (0x115F, 0x1160),
        (0x17B4, 0x17B5),
        (0x180B, 0x180F),
        (0x200B, 0x200F),
        (0x202A, 0x202E),
        (0x2060, 0x206F),
        (0x3164, 0x3164),
        (0xFE00, 0xFE0F),
        (0xFEFF, 0xFEFF),
        (0xFFA0, 0xFFA0),
        (0xFFF0, 0xFFF8),
        (0x1BCA0, 0x1BCA3),
        (0x1D173, 0x1D17A),
        (0xE0000, 0xE0FFF),
    ];
    for cp in 0..=0x10FFFFu32 {
        if let Some(c) = char::from_u32(cp) {
            let expected = ranges.iter().any(|&(lo, hi)| lo <= cp && cp <= hi);
            assert_eq!(is_hidden_char(c), expected, "U+{:04X}", cp);
        }
    }
}

#[test]
fn summary_sums_emitted_results() {
    let mut s = StreamCleaner::new(CleaningOptions::default());
    let mut out = String::new();
    let mut changes = 0u64;
    let mut stats = CleaningStats::default();
    for chunk in ["\u{201C}a\u{201D} ", "\u{2014}b\u{200B}\n", "c\u{A0}d  \n\u{2026}", "", "x"] {
        if let Some(r) = s.feed(chunk, &mut out) {
            changes = changes.saturating_add(r.changes_made);
            stats.accumulate(&r.stats);
        }
    }
    if let Some(r) = s.finish(&mut out) {
        changes = changes.saturating_add(r.changes_made);
        stats.accumulate(&r.stats);
    }
    let summary = s.summary();
    assert!(changes > 0);
    assert_eq!(summary.changes_made, changes);
    assert_eq!(summary.stats.quotes_normalized, stats.quotes_normalized);
    assert_eq!(summary.stats.hidden_chars_removed, stats.hidden_chars_removed);
    assert_eq!(summary.stats.trailing_whitespace_removed, stats.trailing_whitespace_removed);
    assert_eq!(summary.stats.other_normalized, stats.other_normalized);
    assert_eq!(summary.stats.spaces_normalized, stats.spaces_normalized);
    assert_eq!(summary.stats.dashes_normalized, stats.dashes_normalized);
}

#[test]
fn scraped_text_cleanup() {
    let cleaner = TextCleaner::new(CleaningOptions {
        normalize_quotes: true,
        normalize_dashes: true,
        collapse_whitespace: true,
        remove_trailing_whitespace: true,
        ..CleaningOptions::default()
    });
    let result = cleaner.clean("  \u{201C}Smart quotes\u{201D}\u{2014}with\u{00A0}weird spaces  ");
    assert_eq!(result.text, " \"Smart quotes\"-with weird spaces");
}

#[test]
fn keyboard_rewrite_counts_every_non_keyboard_character() {
    let cluster = vec!['a', '\u{E9}', '\u{1F600}', '\u{2014}', 'b'];
    let dropped = rewrite_cluster_to_keyboard_ascii(&cluster, NonAsciiPolicy::Drop, false).unwrap();
    assert_eq!(dropped.text, vec!['a', 'b']);
    assert_eq!(dropped.non_ascii_transliterated, 0);
    assert_eq!(dropped.non_ascii_removed, 3);
    let folded = rewrite_cluster_to_keyboard_ascii(&cluster, NonAsciiPolicy::Transliterate, false).unwrap();
    assert!(folded.text.iter().all(|&c| is_keyboard_ascii(c)));
    assert_eq!(folded.non_ascii_transliterated + folded.non_ascii_removed, 3);
    assert!(rewrite_cluster_to_keyboard_ascii(&vec!['\u{1F600}'], NonAsciiPolicy::Drop, false).is_none());
}

#[test]
fn second_pass_only_trims_blanks_left_before_a_break() {
    let once = clean(" \u{301}\n").text.into_owned();
    assert_eq!(once, " \n");
    assert_eq!(clean(&once).text, "\n");
    let settled = clean("caf\u{E9} \u{2014} \u{BD}\n\u{201C}ok\u{201D}").text.into_owned();
    assert_eq!(clean(&settled).text, settled);
}

#[test]
fn script_classes_come_from_script_codes() {
    assert!(rehuman::sets::is_latin_script('\u{E9}'));
    assert!(!rehuman::sets::is_latin_script('\u{3B1}'));
    assert!(rehuman::sets::is_common_symbol_or_punctuation('\u{A9}'));
    assert!(!rehuman::sets::is_common_symbol_or_punctuation('a'));
}

#[test]
fn cloned_builder_keeps_its_options() {
    let b = CleaningOptions::builder().collapse_whitespace(true);
    let o = b.clone().emoji_policy(EmojiPolicy::Keep).build();
    assert_eq!(o.emoji_policy, EmojiPolicy::Keep);
    assert!(o.collapse_whitespace);
    assert_eq!(b.build().emoji_policy, CleaningOptions::default().emoji_policy);
}
