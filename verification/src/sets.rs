//! Character classes used by the cleaning engine.

use vstd::prelude::*;
use icu_properties::props;
use icu_properties::{CodePointMapData, CodePointSetData};

verus! {

/// Whether `c` has the Unicode `Default_Ignorable_Code_Point` property: the
/// soft hyphen, combining grapheme joiner, Arabic letter mark, Hangul fillers,
/// Khmer inherent vowels, Mongolian free variation selectors and vowel
/// separator, zero-width and directional formatting characters, invisible
/// operators, variation selectors, the byte order mark, interlinear
/// annotation reserve, shorthand format controls, musical symbol format
/// controls and the tag and variation-selector supplement block.
pub open spec fn default_ignorable(c: char) -> bool {
    ||| c == '\u{AD}'
    ||| c == '\u{34F}'
    ||| c == '\u{61C}'
    ||| '\u{115F}' <= c && c <= '\u{1160}'
    ||| '\u{17B4}' <= c && c <= '\u{17B5}'
    ||| '\u{180B}' <= c && c <= '\u{180F}'
    ||| '\u{200B}' <= c && c <= '\u{200F}'
    ||| '\u{202A}' <= c && c <= '\u{202E}'
    ||| '\u{2060}' <= c && c <= '\u{206F}'
    ||| c == '\u{3164}'
    ||| '\u{FE00}' <= c && c <= '\u{FE0F}'
    ||| c == '\u{FEFF}'
    ||| c == '\u{FFA0}'
    ||| '\u{FFF0}' <= c && c <= '\u{FFF8}'
    ||| '\u{1BCA0}' <= c && c <= '\u{1BCA3}'
    ||| '\u{1D173}' <= c && c <= '\u{1D17A}'
    ||| '\u{E0000}' <= c && c <= '\u{E0FFF}'
}

/// Whether `c` has the Unicode `Emoji` property, as `icu_properties` reports it.
pub uninterp spec fn emoji_property(c: char) -> bool;

/// Whether `c` has the Unicode `Emoji_Presentation` property.
pub uninterp spec fn emoji_presentation(c: char) -> bool;

/// Whether `c` has the Unicode `Extended_Pictographic` property.
pub uninterp spec fn extended_pictographic(c: char) -> bool;

/// The Unicode `Script` of `c`, as the `icu_properties::props::Script` code
/// (its ICU4C `UScriptCode` value).
pub uninterp spec fn script_code(c: char) -> u16;

/// The `Script` code of `Common`.
pub const COMMON_SCRIPT: u16 = 0;

/// The `Script` code of `Inherited`.
pub const INHERITED_SCRIPT: u16 = 1;

/// The `Script` code of `Latin`.
pub const LATIN_SCRIPT: u16 = 25;

/// The Unicode `General_Category` of `c`, as the discriminant of
/// `icu_properties::props::GeneralCategory`.
pub uninterp spec fn general_category_code(c: char) -> u8;

/// Hidden/format-like characters defined by `Default_Ignorable_Code_Point`.
///
/// Calls `CodePointSetData::new::<props::DefaultIgnorableCodePoint>().contains`;
/// the contract states the property's code points (Unicode's
/// `DerivedCoreProperties.txt`, which the crate's compiled data follows).
#[verifier::external_body]
pub fn is_hidden_char(c: char) -> (r: bool)
    ensures
        r == default_ignorable(c),
{
    CodePointSetData::new::<props::DefaultIgnorableCodePoint>().contains(c)
}

/// Emoji detection via the Unicode `Emoji` binary property.
///
/// Calls `CodePointSetData::new::<props::Emoji>().contains`; the contract only
/// names its answer.
#[verifier::external_body]
pub fn is_emoji(c: char) -> (r: bool)
    ensures
        r == emoji_property(c),
{
    CodePointSetData::new::<props::Emoji>().contains(c)
}

/// Calls `CodePointSetData::new::<props::EmojiPresentation>().contains`; the
/// contract only names its answer.
#[verifier::external_body]
pub(crate) fn has_emoji_presentation(c: char) -> (r: bool)
    ensures
        r == emoji_presentation(c),
{
    CodePointSetData::new::<props::EmojiPresentation>().contains(c)
}

/// Calls `CodePointSetData::new::<props::ExtendedPictographic>().contains`; the
/// contract only names its answer.
#[verifier::external_body]
pub(crate) fn is_extended_pictographic(c: char) -> (r: bool)
    ensures
        r == extended_pictographic(c),
{
    CodePointSetData::new::<props::ExtendedPictographic>().contains(c)
}

/// Calls `CodePointMapData::<props::Script>::new().get` and returns the
/// script's code; the contract only names it.
#[verifier::external_body]
#[allow(deprecated)]
pub(crate) fn script_of(c: char) -> (r: u16)
    ensures
        r == script_code(c),
{
    CodePointMapData::<props::Script>::new().get(c).to_icu4c_value()
}

/// Calls `CodePointMapData::<props::GeneralCategory>::new().get` and returns the
/// category's discriminant; the contract only names it.
#[verifier::external_body]
pub(crate) fn general_category_of(c: char) -> (r: u8)
    ensures
        r == general_category_code(c),
{
    CodePointMapData::<props::GeneralCategory>::new().get(c) as u8
}

/// ASCII keyboard (US) characters plus the whitespace controls a keyboard types.
pub open spec fn keyboard_ascii(c: char) -> bool {
    c == '\n' || c == '\r' || c == '\t' || (' ' <= c && c <= '~')
}

/// The curated non-ASCII characters allowed in extended keyboard mode.
pub open spec fn extended_keyboard_char(c: char) -> bool {
    c == '€' || c == '£' || c == '¥' || c == '¢' || c == '§' || c == '°' || c == '±'
        || c == '×' || c == '÷' || c == '–' || c == '—' || c == '…' || c == '•' || c == '·'
}

/// Whether keyboard-only output keeps `c` unchanged.
pub open spec fn keyboard_allowed(c: char, extended: bool) -> bool {
    keyboard_ascii(c) || (extended && extended_keyboard_char(c))
}

/// ASCII keyboard (US) characters + whitespace controls typically produced by keyboards.
pub fn is_keyboard_ascii(c: char) -> (r: bool)
    ensures
        r == keyboard_ascii(c),
{
    c == '\n' || c == '\r' || c == '\t' || (' ' <= c && c <= '~')
}

/// Curated non-ASCII characters allowed in extended keyboard mode.
pub fn is_extended_keyboard_char(c: char) -> (r: bool)
    ensures
        r == extended_keyboard_char(c),
{
    c == '€' || c == '£' || c == '¥' || c == '¢' || c == '§' || c == '°' || c == '±'
        || c == '×' || c == '÷' || c == '–' || c == '—' || c == '…' || c == '•' || c == '·'
}

/// Whether keyboard-only output keeps `c` unchanged.
pub fn is_keyboard_allowed(c: char, extended: bool) -> (r: bool)
    ensures
        r == keyboard_allowed(c, extended),
{
    is_keyboard_ascii(c) || (extended && is_extended_keyboard_char(c))
}


/// The Unicode `White_Space` property (the set std's `char::is_whitespace`
/// documents).
pub open spec fn white_space(c: char) -> bool {
    ('\u{9}' <= c && c <= '\u{D}') || c == ' ' || c == '\u{85}' || c == '\u{A0}'
        || c == '\u{1680}' || ('\u{2000}' <= c && c <= '\u{200A}') || c == '\u{2028}'
        || c == '\u{2029}' || c == '\u{202F}' || c == '\u{205F}' || c == '\u{3000}'
}

/// Executable form of [`white_space`].
pub fn is_white_space(c: char) -> (r: bool)
    ensures
        r == white_space(c),
{
    ('\u{9}' <= c && c <= '\u{D}') || c == ' ' || c == '\u{85}' || c == '\u{A0}'
        || c == '\u{1680}' || ('\u{2000}' <= c && c <= '\u{200A}') || c == '\u{2028}'
        || c == '\u{2029}' || c == '\u{202F}' || c == '\u{205F}' || c == '\u{3000}'
}

/// C0 and C1 control characters other than `\n`, `\r` and `\t`.
pub open spec fn disallowed_control(c: char) -> bool {
    (c <= '\u{1F}' || ('\u{7F}' <= c && c <= '\u{9F}')) && c != '\n' && c != '\r' && c != '\t'
}

/// Executable form of [`disallowed_control`].
pub fn is_disallowed_control(c: char) -> (r: bool)
    ensures
        r == disallowed_control(c),
{
    (c <= '\u{1F}' || ('\u{7F}' <= c && c <= '\u{9F}')) && c != '\n' && c != '\r' && c != '\t'
}

/// ZERO WIDTH NON-JOINER and ZERO WIDTH JOINER.
pub open spec fn joiner(c: char) -> bool {
    c == '\u{200C}' || c == '\u{200D}'
}

/// Executable form of [`joiner`].
pub fn is_joiner(c: char) -> (r: bool)
    ensures
        r == joiner(c),
{
    c == '\u{200C}' || c == '\u{200D}'
}

/// ASCII characters.
pub open spec fn ascii_char(c: char) -> bool {
    c <= '\u{7F}'
}

/// ASCII that keyboard-only output leaves unchanged: printable ASCII plus the
/// three retained whitespace controls.
pub open spec fn fast_path_safe(c: char) -> bool {
    c == '\n' || c == '\r' || c == '\t' || (' ' <= c && c <= '~')
}

/// Whether `c` has the Unicode `Latin` script.
pub open spec fn latin_script(c: char) -> bool {
    script_code(c) == LATIN_SCRIPT
}

/// Script-neutral (Common or Inherited) symbols, punctuation, separators,
/// other-numbers and modifier letters: the surface the transliteration
/// fallback may romanize.
pub open spec fn common_symbol_or_punctuation(c: char) -> bool {
    (script_code(c) == COMMON_SCRIPT || script_code(c) == INHERITED_SCRIPT)
        && symbol_like_category(general_category_code(c))
}

/// General categories Sm, Sc, Sk, So, Pd, Ps, Pe, Pi, Pf, Po, No, Lm, Zs,
/// Zl and Zp, by their `icu_properties` discriminants.
pub open spec fn symbol_like_category(gc: u8) -> bool {
    gc == 24 || gc == 25 || gc == 26 || gc == 27 || gc == 19 || gc == 20 || gc == 21
        || gc == 28 || gc == 29 || gc == 23 || gc == 11 || gc == 4 || gc == 12 || gc == 13
        || gc == 14
}

/// Latin-script characters, the candidates for transliteration of letters.
pub fn is_latin_script(c: char) -> (r: bool)
    ensures
        r == latin_script(c),
{
    script_of(c) == LATIN_SCRIPT
}

/// Script-neutral symbols and punctuation (see [`common_symbol_or_punctuation`]).
pub fn is_common_symbol_or_punctuation(c: char) -> (r: bool)
    ensures
        r == common_symbol_or_punctuation(c),
{
    let s = script_of(c);
    if !(s == COMMON_SCRIPT || s == INHERITED_SCRIPT) {
        return false;
    }
    let gc = general_category_of(c);
    gc == 24 || gc == 25 || gc == 26 || gc == 27 || gc == 19 || gc == 20 || gc == 21
        || gc == 28 || gc == 29 || gc == 23 || gc == 11 || gc == 4 || gc == 12 || gc == 13
        || gc == 14
}

} // verus!
