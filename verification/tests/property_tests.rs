use icu_properties::props::{Dash, GeneralCategory, QuotationMark};
use icu_properties::{CodePointMapData, CodePointSetData};
use rehuman::{clean, CleaningOptions, TextCleaner};

#[test]
fn dash_property_maps_to_ascii_hyphen() {
    let dash_set = CodePointSetData::new::<Dash>();
    for range in dash_set.iter_ranges() {
        for codepoint in range {
            let Some(ch) = char::from_u32(codepoint) else {
                continue;
            };
            let input: String = ch.into();
            let output = clean(&input);
            assert_eq!(
                output.text, "-",
                "expected dash U+{:04X} to normalize to '-'",
                codepoint
            );
        }
    }
}

#[test]
fn space_separators_collapse_to_ascii_space() {
    let gc = CodePointMapData::<GeneralCategory>::new();

    let cleaner = TextCleaner::new(CleaningOptions::default());
    for range in gc.iter_ranges_for_value(GeneralCategory::SpaceSeparator) {
        for codepoint in range {
            let Some(ch) = char::from_u32(codepoint) else {
                continue;
            };
            let input = format!("a{ch}b");
            let output = cleaner.clean(&input);
            assert_eq!(output.text, "a b", "failed to normalize U+{:04X}", codepoint);
        }
    }
}

#[test]
fn quotation_marks_normalize_to_ascii() {
    let quotation_set = CodePointSetData::new::<QuotationMark>();
    let cleaner = TextCleaner::new(CleaningOptions::default());

    for range in quotation_set.iter_ranges() {
        for codepoint in range {
            let Some(ch) = char::from_u32(codepoint) else {
                continue;
            };
            if ch == '\'' || ch == '"' {
                continue;
            }
            let input = format!("x{ch}y");
            let output = cleaner.clean(&input);
            let mapped = output.text.chars().nth(1).expect("output should have length 3");
            assert!(
                mapped == '\'' || mapped == '"',
                "quotation U+{:04X} normalized to unexpected char {:?}",
                codepoint,
                mapped
            );
        }
    }
}
