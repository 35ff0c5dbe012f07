//! Character tables: Unicode space separators, dashes, quotation marks,
//! Greek letter names, and the curated symbol transliterations.
//!
//! The space, dash and quotation tables follow the Unicode `General_Category`
//! (`Zs`), `Dash` and `Quotation_Mark` data together with the character-name
//! rule for quotes, apostrophes and primes; the Greek table maps every Greek
//! letter whose compatibility decomposition starts with one of the 24 base
//! letters to that letter's English name.

use vstd::prelude::*;
use vstd::string::*;
use crate::lines::lf_only;

verus! {

/// Unicode space separators (`Zs`) other than U+0020, which normalize to `' '`.
pub open spec fn space_separator(c: char) -> bool {
    match c {
        '\u{A0}' | '\u{1680}' | '\u{2000}' | '\u{2001}' | '\u{2002}' | '\u{2003}' | '\u{2004}'
        | '\u{2005}' | '\u{2006}' | '\u{2007}' | '\u{2008}' | '\u{2009}' | '\u{200A}'
        | '\u{202F}' | '\u{205F}' | '\u{3000}' => true,
        _ => false,
    }
}

/// Executable form of [`space_separator`].
pub fn is_space_separator(c: char) -> (r: bool)
    ensures
        r == space_separator(c),
{
    match c {
        '\u{A0}' | '\u{1680}' | '\u{2000}' | '\u{2001}' | '\u{2002}' | '\u{2003}' | '\u{2004}'
        | '\u{2005}' | '\u{2006}' | '\u{2007}' | '\u{2008}' | '\u{2009}' | '\u{200A}'
        | '\u{202F}' | '\u{205F}' | '\u{3000}' => true,
        _ => false,
    }
}

/// Unicode dashes (the `Dash` property, plus U+2212 MINUS SIGN) other than `-`.
pub open spec fn dash_char(c: char) -> bool {
    match c {
        '\u{58A}' | '\u{5BE}' | '\u{1400}' | '\u{1806}' | '\u{2010}' | '\u{2011}' | '\u{2012}'
        | '\u{2013}' | '\u{2014}' | '\u{2015}' | '\u{2053}' | '\u{207B}' | '\u{208B}'
        | '\u{2212}' | '\u{2E17}' | '\u{2E1A}' | '\u{2E3A}' | '\u{2E3B}' | '\u{2E40}'
        | '\u{2E5D}' | '\u{301C}' | '\u{3030}' | '\u{30A0}' | '\u{FE31}' | '\u{FE32}'
        | '\u{FE58}' | '\u{FE63}' | '\u{FF0D}' | '\u{10D6E}' | '\u{10EAD}' => true,
        _ => false,
    }
}

/// Executable form of [`dash_char`].
pub fn is_dash_char(c: char) -> (r: bool)
    ensures
        r == dash_char(c),
{
    match c {
        '\u{58A}' | '\u{5BE}' | '\u{1400}' | '\u{1806}' | '\u{2010}' | '\u{2011}' | '\u{2012}'
        | '\u{2013}' | '\u{2014}' | '\u{2015}' | '\u{2053}' | '\u{207B}' | '\u{208B}'
        | '\u{2212}' | '\u{2E17}' | '\u{2E1A}' | '\u{2E3A}' | '\u{2E3B}' | '\u{2E40}'
        | '\u{2E5D}' | '\u{301C}' | '\u{3030}' | '\u{30A0}' | '\u{FE31}' | '\u{FE32}'
        | '\u{FE58}' | '\u{FE63}' | '\u{FF0D}' | '\u{10D6E}' | '\u{10EAD}' => true,
        _ => false,
    }
}

/// Quotation marks, apostrophes and primes, mapped to the ASCII quote of
/// the same weight.
pub open spec fn quote_target(c: char) -> Option<char> {
    match c {
        '\u{AB}' | '\u{BB}' | '\u{2BA}' | '\u{2EE}' | '\u{201C}' | '\u{201D}' | '\u{201E}'
        | '\u{201F}' | '\u{2033}' | '\u{2036}' | '\u{275D}' | '\u{275E}' | '\u{2760}'
        | '\u{276E}' | '\u{276F}' | '\u{2E42}' | '\u{300E}' | '\u{300F}' | '\u{301D}'
        | '\u{301E}' | '\u{301F}' | '\u{FE43}' | '\u{FE44}' | '\u{FF02}' | '\u{1F676}'
        | '\u{1F677}' | '\u{1F678}' => Some('"'),
        '\u{149}' | '\u{2B9}' | '\u{2BC}' | '\u{55A}' | '\u{7F4}' | '\u{7F5}' | '\u{2018}'
        | '\u{2019}' | '\u{201A}' | '\u{201B}' | '\u{2032}' | '\u{2034}' | '\u{2035}'
        | '\u{2037}' | '\u{2039}' | '\u{203A}' | '\u{2057}' | '\u{275B}' | '\u{275C}'
        | '\u{275F}' | '\u{300C}' | '\u{300D}' | '\u{FE41}' | '\u{FE42}' | '\u{FF07}'
        | '\u{FF62}' | '\u{FF63}' | '\u{E0027}' => Some('\''),
        _ => None,
    }
}

/// Executable form of [`quote_target`].
pub fn map_quote(c: char) -> (r: Option<char>)
    ensures
        r == quote_target(c),
{
    match c {
        '\u{AB}' | '\u{BB}' | '\u{2BA}' | '\u{2EE}' | '\u{201C}' | '\u{201D}' | '\u{201E}'
        | '\u{201F}' | '\u{2033}' | '\u{2036}' | '\u{275D}' | '\u{275E}' | '\u{2760}'
        | '\u{276E}' | '\u{276F}' | '\u{2E42}' | '\u{300E}' | '\u{300F}' | '\u{301D}'
        | '\u{301E}' | '\u{301F}' | '\u{FE43}' | '\u{FE44}' | '\u{FF02}' | '\u{1F676}'
        | '\u{1F677}' | '\u{1F678}' => Some('"'),
        '\u{149}' | '\u{2B9}' | '\u{2BC}' | '\u{55A}' | '\u{7F4}' | '\u{7F5}' | '\u{2018}'
        | '\u{2019}' | '\u{201A}' | '\u{201B}' | '\u{2032}' | '\u{2034}' | '\u{2035}'
        | '\u{2037}' | '\u{2039}' | '\u{203A}' | '\u{2057}' | '\u{275B}' | '\u{275C}'
        | '\u{275F}' | '\u{300C}' | '\u{300D}' | '\u{FE41}' | '\u{FE42}' | '\u{FF07}'
        | '\u{FF62}' | '\u{FF63}' | '\u{E0027}' => Some('\''),
        _ => None,
    }
}

/// English names of Greek letters, including accented, polytonic, final and
/// symbol variants.
pub open spec fn greek_name(c: char) -> Option<&'static str> {
    match c {
        '\u{386}' | '\u{391}' | '\u{1F08}' | '\u{1F09}' | '\u{1F0A}' | '\u{1F0B}' | '\u{1F0C}'
        | '\u{1F0D}' | '\u{1F0E}' | '\u{1F0F}' | '\u{1F88}' | '\u{1F89}' | '\u{1F8A}'
        | '\u{1F8B}' | '\u{1F8C}' | '\u{1F8D}' | '\u{1F8E}' | '\u{1F8F}' | '\u{1FB8}'
        | '\u{1FB9}' | '\u{1FBA}' | '\u{1FBB}' | '\u{1FBC}' => Some("Alpha"),
        '\u{388}' | '\u{395}' | '\u{1F18}' | '\u{1F19}' | '\u{1F1A}' | '\u{1F1B}' | '\u{1F1C}'
        | '\u{1F1D}' | '\u{1FC8}' | '\u{1FC9}' => Some("Epsilon"),
        '\u{389}' | '\u{397}' | '\u{1F28}' | '\u{1F29}' | '\u{1F2A}' | '\u{1F2B}' | '\u{1F2C}'
        | '\u{1F2D}' | '\u{1F2E}' | '\u{1F2F}' | '\u{1F98}' | '\u{1F99}' | '\u{1F9A}'
        | '\u{1F9B}' | '\u{1F9C}' | '\u{1F9D}' | '\u{1F9E}' | '\u{1F9F}' | '\u{1FCA}'
        | '\u{1FCB}' | '\u{1FCC}' => Some("Eta"),
        '\u{38A}' | '\u{399}' | '\u{3AA}' | '\u{1F38}' | '\u{1F39}' | '\u{1F3A}' | '\u{1F3B}'
        | '\u{1F3C}' | '\u{1F3D}' | '\u{1F3E}' | '\u{1F3F}' | '\u{1FD8}' | '\u{1FD9}'
        | '\u{1FDA}' | '\u{1FDB}' => Some("Iota"),
        '\u{38C}' | '\u{39F}' | '\u{1F48}' | '\u{1F49}' | '\u{1F4A}' | '\u{1F4B}' | '\u{1F4C}'
        | '\u{1F4D}' | '\u{1FF8}' | '\u{1FF9}' => Some("Omicron"),
        '\u{38E}' | '\u{3A5}' | '\u{3AB}' | '\u{3D2}' | '\u{3D3}' | '\u{3D4}' | '\u{1F59}'
        | '\u{1F5B}' | '\u{1F5D}' | '\u{1F5F}' | '\u{1FE8}' | '\u{1FE9}' | '\u{1FEA}'
        | '\u{1FEB}' => Some("Upsilon"),
        '\u{38F}' | '\u{3A9}' | '\u{1F68}' | '\u{1F69}' | '\u{1F6A}' | '\u{1F6B}' | '\u{1F6C}'
        | '\u{1F6D}' | '\u{1F6E}' | '\u{1F6F}' | '\u{1FA8}' | '\u{1FA9}' | '\u{1FAA}'
        | '\u{1FAB}' | '\u{1FAC}' | '\u{1FAD}' | '\u{1FAE}' | '\u{1FAF}' | '\u{1FFA}'
        | '\u{1FFB}' | '\u{1FFC}' | '\u{2126}' => Some("Omega"),
        '\u{390}' | '\u{3AF}' | '\u{3B9}' | '\u{3CA}' | '\u{1F30}' | '\u{1F31}' | '\u{1F32}'
        | '\u{1F33}' | '\u{1F34}' | '\u{1F35}' | '\u{1F36}' | '\u{1F37}' | '\u{1F76}'
        | '\u{1F77}' | '\u{1FBE}' | '\u{1FD0}' | '\u{1FD1}' | '\u{1FD2}' | '\u{1FD3}'
        | '\u{1FD6}' | '\u{1FD7}' => Some("iota"),
        '\u{392}' => Some("Beta"),
        '\u{393}' => Some("Gamma"),
        '\u{394}' => Some("Delta"),
        '\u{396}' => Some("Zeta"),
        '\u{398}' | '\u{3F4}' => Some("Theta"),
        '\u{39A}' => Some("Kappa"),
        '\u{39B}' => Some("Lambda"),
        '\u{39C}' => Some("Mu"),
        '\u{39D}' => Some("Nu"),
        '\u{39E}' => Some("Xi"),
        '\u{3A0}' => Some("Pi"),
        '\u{3A1}' | '\u{1FEC}' => Some("Rho"),
        '\u{3A3}' | '\u{3F9}' => Some("Sigma"),
        '\u{3A4}' => Some("Tau"),
        '\u{3A6}' => Some("Phi"),
        '\u{3A7}' => Some("Chi"),
        '\u{3A8}' => Some("Psi"),
        '\u{3AC}' | '\u{3B1}' | '\u{1F00}' | '\u{1F01}' | '\u{1F02}' | '\u{1F03}' | '\u{1F04}'
        | '\u{1F05}' | '\u{1F06}' | '\u{1F07}' | '\u{1F70}' | '\u{1F71}' | '\u{1F80}'
        | '\u{1F81}' | '\u{1F82}' | '\u{1F83}' | '\u{1F84}' | '\u{1F85}' | '\u{1F86}'
        | '\u{1F87}' | '\u{1FB0}' | '\u{1FB1}' | '\u{1FB2}' | '\u{1FB3}' | '\u{1FB4}'
        | '\u{1FB6}' | '\u{1FB7}' => Some("alpha"),
        '\u{3AD}' | '\u{3B5}' | '\u{3F5}' | '\u{1F10}' | '\u{1F11}' | '\u{1F12}' | '\u{1F13}'
        | '\u{1F14}' | '\u{1F15}' | '\u{1F72}' | '\u{1F73}' => Some("epsilon"),
        '\u{3AE}' | '\u{3B7}' | '\u{1F20}' | '\u{1F21}' | '\u{1F22}' | '\u{1F23}' | '\u{1F24}'
        | '\u{1F25}' | '\u{1F26}' | '\u{1F27}' | '\u{1F74}' | '\u{1F75}' | '\u{1F90}'
        | '\u{1F91}' | '\u{1F92}' | '\u{1F93}' | '\u{1F94}' | '\u{1F95}' | '\u{1F96}'
        | '\u{1F97}' | '\u{1FC2}' | '\u{1FC3}' | '\u{1FC4}' | '\u{1FC6}' | '\u{1FC7}' => Some("eta"),
        '\u{3B0}' | '\u{3C5}' | '\u{3CB}' | '\u{3CD}' | '\u{1F50}' | '\u{1F51}' | '\u{1F52}'
        | '\u{1F53}' | '\u{1F54}' | '\u{1F55}' | '\u{1F56}' | '\u{1F57}' | '\u{1F7A}'
        | '\u{1F7B}' | '\u{1FE0}' | '\u{1FE1}' | '\u{1FE2}' | '\u{1FE3}' | '\u{1FE6}'
        | '\u{1FE7}' => Some("upsilon"),
        '\u{3B2}' | '\u{3D0}' | '\u{1D5D}' | '\u{1D66}' => Some("beta"),
        '\u{3B3}' | '\u{1D5E}' | '\u{1D67}' => Some("gamma"),
        '\u{3B4}' | '\u{1D5F}' => Some("delta"),
        '\u{3B6}' => Some("zeta"),
        '\u{3B8}' | '\u{3D1}' | '\u{1DBF}' => Some("theta"),
        '\u{3BA}' | '\u{3F0}' => Some("kappa"),
        '\u{3BB}' => Some("lambda"),
        '\u{3BC}' => Some("mu"),
        '\u{3BD}' => Some("nu"),
        '\u{3BE}' => Some("xi"),
        '\u{3BF}' | '\u{3CC}' | '\u{1F40}' | '\u{1F41}' | '\u{1F42}' | '\u{1F43}' | '\u{1F44}'
        | '\u{1F45}' | '\u{1F78}' | '\u{1F79}' => Some("omicron"),
        '\u{3C0}' | '\u{3D6}' => Some("pi"),
        '\u{3C1}' | '\u{3F1}' | '\u{1D68}' | '\u{1FE4}' | '\u{1FE5}' => Some("rho"),
        '\u{3C2}' | '\u{3C3}' | '\u{3F2}' => Some("sigma"),
        '\u{3C4}' => Some("tau"),
        '\u{3C6}' | '\u{3D5}' | '\u{1D60}' | '\u{1D69}' => Some("phi"),
        '\u{3C7}' | '\u{1D61}' | '\u{1D6A}' => Some("chi"),
        '\u{3C8}' => Some("psi"),
        '\u{3C9}' | '\u{3CE}' | '\u{1F60}' | '\u{1F61}' | '\u{1F62}' | '\u{1F63}' | '\u{1F64}'
        | '\u{1F65}' | '\u{1F66}' | '\u{1F67}' | '\u{1F7C}' | '\u{1F7D}' | '\u{1FA0}'
        | '\u{1FA1}' | '\u{1FA2}' | '\u{1FA3}' | '\u{1FA4}' | '\u{1FA5}' | '\u{1FA6}'
        | '\u{1FA7}' | '\u{1FF2}' | '\u{1FF3}' | '\u{1FF4}' | '\u{1FF6}' | '\u{1FF7}' => Some("omega"),
        _ => None,
    }
}

/// Executable form of [`greek_name`].
pub fn greek_translit(c: char) -> (r: Option<&'static str>)
    ensures
        r == greek_name(c),
{
    match c {
        '\u{386}' | '\u{391}' | '\u{1F08}' | '\u{1F09}' | '\u{1F0A}' | '\u{1F0B}' | '\u{1F0C}'
        | '\u{1F0D}' | '\u{1F0E}' | '\u{1F0F}' | '\u{1F88}' | '\u{1F89}' | '\u{1F8A}'
        | '\u{1F8B}' | '\u{1F8C}' | '\u{1F8D}' | '\u{1F8E}' | '\u{1F8F}' | '\u{1FB8}'
        | '\u{1FB9}' | '\u{1FBA}' | '\u{1FBB}' | '\u{1FBC}' => Some("Alpha"),
        '\u{388}' | '\u{395}' | '\u{1F18}' | '\u{1F19}' | '\u{1F1A}' | '\u{1F1B}' | '\u{1F1C}'
        | '\u{1F1D}' | '\u{1FC8}' | '\u{1FC9}' => Some("Epsilon"),
        '\u{389}' | '\u{397}' | '\u{1F28}' | '\u{1F29}' | '\u{1F2A}' | '\u{1F2B}' | '\u{1F2C}'
        | '\u{1F2D}' | '\u{1F2E}' | '\u{1F2F}' | '\u{1F98}' | '\u{1F99}' | '\u{1F9A}'
        | '\u{1F9B}' | '\u{1F9C}' | '\u{1F9D}' | '\u{1F9E}' | '\u{1F9F}' | '\u{1FCA}'
        | '\u{1FCB}' | '\u{1FCC}' => Some("Eta"),
        '\u{38A}' | '\u{399}' | '\u{3AA}' | '\u{1F38}' | '\u{1F39}' | '\u{1F3A}' | '\u{1F3B}'
        | '\u{1F3C}' | '\u{1F3D}' | '\u{1F3E}' | '\u{1F3F}' | '\u{1FD8}' | '\u{1FD9}'
        | '\u{1FDA}' | '\u{1FDB}' => Some("Iota"),
        '\u{38C}' | '\u{39F}' | '\u{1F48}' | '\u{1F49}' | '\u{1F4A}' | '\u{1F4B}' | '\u{1F4C}'
        | '\u{1F4D}' | '\u{1FF8}' | '\u{1FF9}' => Some("Omicron"),
        '\u{38E}' | '\u{3A5}' | '\u{3AB}' | '\u{3D2}' | '\u{3D3}' | '\u{3D4}' | '\u{1F59}'
        | '\u{1F5B}' | '\u{1F5D}' | '\u{1F5F}' | '\u{1FE8}' | '\u{1FE9}' | '\u{1FEA}'
        | '\u{1FEB}' => Some("Upsilon"),
        '\u{38F}' | '\u{3A9}' | '\u{1F68}' | '\u{1F69}' | '\u{1F6A}' | '\u{1F6B}' | '\u{1F6C}'
        | '\u{1F6D}' | '\u{1F6E}' | '\u{1F6F}' | '\u{1FA8}' | '\u{1FA9}' | '\u{1FAA}'
        | '\u{1FAB}' | '\u{1FAC}' | '\u{1FAD}' | '\u{1FAE}' | '\u{1FAF}' | '\u{1FFA}'
        | '\u{1FFB}' | '\u{1FFC}' | '\u{2126}' => Some("Omega"),
        '\u{390}' | '\u{3AF}' | '\u{3B9}' | '\u{3CA}' | '\u{1F30}' | '\u{1F31}' | '\u{1F32}'
        | '\u{1F33}' | '\u{1F34}' | '\u{1F35}' | '\u{1F36}' | '\u{1F37}' | '\u{1F76}'
        | '\u{1F77}' | '\u{1FBE}' | '\u{1FD0}' | '\u{1FD1}' | '\u{1FD2}' | '\u{1FD3}'
        | '\u{1FD6}' | '\u{1FD7}' => Some("iota"),
        '\u{392}' => Some("Beta"),
        '\u{393}' => Some("Gamma"),
        '\u{394}' => Some("Delta"),
        '\u{396}' => Some("Zeta"),
        '\u{398}' | '\u{3F4}' => Some("Theta"),
        '\u{39A}' => Some("Kappa"),
        '\u{39B}' => Some("Lambda"),
        '\u{39C}' => Some("Mu"),
        '\u{39D}' => Some("Nu"),
        '\u{39E}' => Some("Xi"),
        '\u{3A0}' => Some("Pi"),
        '\u{3A1}' | '\u{1FEC}' => Some("Rho"),
        '\u{3A3}' | '\u{3F9}' => Some("Sigma"),
        '\u{3A4}' => Some("Tau"),
        '\u{3A6}' => Some("Phi"),
        '\u{3A7}' => Some("Chi"),
        '\u{3A8}' => Some("Psi"),
        '\u{3AC}' | '\u{3B1}' | '\u{1F00}' | '\u{1F01}' | '\u{1F02}' | '\u{1F03}' | '\u{1F04}'
        | '\u{1F05}' | '\u{1F06}' | '\u{1F07}' | '\u{1F70}' | '\u{1F71}' | '\u{1F80}'
        | '\u{1F81}' | '\u{1F82}' | '\u{1F83}' | '\u{1F84}' | '\u{1F85}' | '\u{1F86}'
        | '\u{1F87}' | '\u{1FB0}' | '\u{1FB1}' | '\u{1FB2}' | '\u{1FB3}' | '\u{1FB4}'
        | '\u{1FB6}' | '\u{1FB7}' => Some("alpha"),
        '\u{3AD}' | '\u{3B5}' | '\u{3F5}' | '\u{1F10}' | '\u{1F11}' | '\u{1F12}' | '\u{1F13}'
        | '\u{1F14}' | '\u{1F15}' | '\u{1F72}' | '\u{1F73}' => Some("epsilon"),
        '\u{3AE}' | '\u{3B7}' | '\u{1F20}' | '\u{1F21}' | '\u{1F22}' | '\u{1F23}' | '\u{1F24}'
        | '\u{1F25}' | '\u{1F26}' | '\u{1F27}' | '\u{1F74}' | '\u{1F75}' | '\u{1F90}'
        | '\u{1F91}' | '\u{1F92}' | '\u{1F93}' | '\u{1F94}' | '\u{1F95}' | '\u{1F96}'
        | '\u{1F97}' | '\u{1FC2}' | '\u{1FC3}' | '\u{1FC4}' | '\u{1FC6}' | '\u{1FC7}' => Some("eta"),
        '\u{3B0}' | '\u{3C5}' | '\u{3CB}' | '\u{3CD}' | '\u{1F50}' | '\u{1F51}' | '\u{1F52}'
        | '\u{1F53}' | '\u{1F54}' | '\u{1F55}' | '\u{1F56}' | '\u{1F57}' | '\u{1F7A}'
        | '\u{1F7B}' | '\u{1FE0}' | '\u{1FE1}' | '\u{1FE2}' | '\u{1FE3}' | '\u{1FE6}'
        | '\u{1FE7}' => Some("upsilon"),
        '\u{3B2}' | '\u{3D0}' | '\u{1D5D}' | '\u{1D66}' => Some("beta"),
        '\u{3B3}' | '\u{1D5E}' | '\u{1D67}' => Some("gamma"),
        '\u{3B4}' | '\u{1D5F}' => Some("delta"),
        '\u{3B6}' => Some("zeta"),
        '\u{3B8}' | '\u{3D1}' | '\u{1DBF}' => Some("theta"),
        '\u{3BA}' | '\u{3F0}' => Some("kappa"),
        '\u{3BB}' => Some("lambda"),
        '\u{3BC}' => Some("mu"),
        '\u{3BD}' => Some("nu"),
        '\u{3BE}' => Some("xi"),
        '\u{3BF}' | '\u{3CC}' | '\u{1F40}' | '\u{1F41}' | '\u{1F42}' | '\u{1F43}' | '\u{1F44}'
        | '\u{1F45}' | '\u{1F78}' | '\u{1F79}' => Some("omicron"),
        '\u{3C0}' | '\u{3D6}' => Some("pi"),
        '\u{3C1}' | '\u{3F1}' | '\u{1D68}' | '\u{1FE4}' | '\u{1FE5}' => Some("rho"),
        '\u{3C2}' | '\u{3C3}' | '\u{3F2}' => Some("sigma"),
        '\u{3C4}' => Some("tau"),
        '\u{3C6}' | '\u{3D5}' | '\u{1D60}' | '\u{1D69}' => Some("phi"),
        '\u{3C7}' | '\u{1D61}' | '\u{1D6A}' => Some("chi"),
        '\u{3C8}' => Some("psi"),
        '\u{3C9}' | '\u{3CE}' | '\u{1F60}' | '\u{1F61}' | '\u{1F62}' | '\u{1F63}' | '\u{1F64}'
        | '\u{1F65}' | '\u{1F66}' | '\u{1F67}' | '\u{1F7C}' | '\u{1F7D}' | '\u{1FA0}'
        | '\u{1FA1}' | '\u{1FA2}' | '\u{1FA3}' | '\u{1FA4}' | '\u{1FA5}' | '\u{1FA6}'
        | '\u{1FA7}' | '\u{1FF2}' | '\u{1FF3}' | '\u{1FF4}' | '\u{1FF6}' | '\u{1FF7}' => Some("omega"),
        _ => None,
    }
}

/// Curated symbol transliterations for glyphs where compatibility folding
/// and the long-tail fallback give a lossy or no result.
pub open spec fn symbol_mapping(c: char) -> Option<&'static str> {
    match c {
        '\u{2192}' | '\u{2794}' | '\u{2799}' | '\u{279C}' | '\u{27A4}' => Some("->"),
        '\u{2190}' => Some("<-"),
        '\u{2194}' => Some("<->"),
        '\u{2191}' => Some("^"),
        '\u{2193}' | '\u{25BC}' => Some("v"),
        '\u{2195}' => Some("^v"),
        '\u{21D2}' | '\u{27F9}' => Some("==>"),
        '\u{21D0}' | '\u{27F8}' => Some("<=="),
        '\u{21D4}' | '\u{27FA}' => Some("<==>"),
        '\u{21A6}' => Some("|->"),
        '\u{21B5}' | '\u{23CE}' => Some("<-'"),
        '\u{27F6}' => Some("-->"),
        '\u{27F5}' => Some("<--"),
        '\u{27F7}' => Some("<-->"),
        '\u{21CC}' | '\u{21CB}' => Some("<=>"),
        '\u{2254}' => Some(":="),
        '\u{2255}' => Some("=:"),
        '\u{2218}' | '\u{25E6}' | '\u{25CB}' => Some("o"),
        '\u{22EE}' => Some("..."),
        '\u{2243}' | '\u{2248}' => Some("~="),
        '\u{2261}' => Some("==="),
        '\u{00B1}' => Some("+/-"),
        '\u{2213}' => Some("-/+"),
        '\u{2211}' => Some("sum"),
        '\u{220F}' => Some("prod"),
        '\u{222B}' => Some("int"),
        '\u{2207}' => Some("grad"),
        '\u{2206}' => Some("delta"),
        '\u{2205}' => Some("{}"),
        '\u{2208}' => Some("in"),
        '\u{220B}' => Some("ni"),
        '\u{2227}' => Some("and"),
        '\u{2228}' => Some("or"),
        '\u{2200}' => Some("forall"),
        '\u{2203}' => Some("exists"),
        '\u{2270}' => Some("!<="),
        '\u{2271}' => Some("!>="),
        '\u{2209}' => Some("!in"),
        '\u{220C}' => Some("!ni"),
        '\u{2224}' => Some("!|"),
        '\u{2226}' => Some("!||"),
        '\u{2241}' => Some("!~"),
        '\u{2244}' => Some("!~="),
        '\u{2249}' => Some("!~~"),
        '\u{2262}' => Some("!=="),
        '\u{2022}' | '\u{2023}' | '\u{2043}' | '\u{2027}' | '\u{25AA}' | '\u{25AB}' => Some("-"),
        '\u{00A2}' => Some("c"),
        '\u{00A3}' => Some("GBP"),
        '\u{00A5}' => Some("JPY"),
        '\u{00A7}' => Some("S"),
        '\u{2030}' => Some("0/00"),
        '\u{25A1}' | '\u{2717}' | '\u{2718}' | '\u{274C}' | '\u{274E}' => Some("[ ]"),
        '\u{25B6}' => Some(">"),
        '\u{25C0}' => Some("<"),
        '\u{25C6}' | '\u{25C7}' => Some("<>"),
        '\u{2713}' | '\u{2714}' | '\u{2611}' | '\u{2705}' => Some("[x]"),
        '\u{2716}' => Some("x"),
        '\u{26A0}' => Some("[!]"),
        '\u{2757}' | '\u{2755}' => Some("!"),
        '\u{2753}' | '\u{2754}' => Some("?"),
        '\u{2B50}' => Some("*"),
        '\u{00A9}' => Some("(c)"),
        '\u{00AE}' => Some("(r)"),
        '\u{00B5}' => Some("u"),
        '\u{2126}' => Some("ohm"),
        '\u{02DA}' => Some("deg"),
        '\u{02BB}' => Some("'"),
        '\u{2318}' => Some("Cmd"),
        '\u{2325}' => Some("Opt"),
        '\u{2303}' => Some("Ctrl"),
        '\u{21E7}' => Some("Shift"),
        '\u{2387}' => Some("Alt"),
        '\u{238B}' => Some("Esc"),
        '\u{232B}' => Some("Bksp"),
        '\u{2326}' => Some("Del"),
        '\u{23CF}' => Some("Eject"),
        _ => None,
    }
}

/// Executable form of [`symbol_mapping`].
pub fn symbol_translit(c: char) -> (r: Option<&'static str>)
    ensures
        r == symbol_mapping(c),
{
    match c {
        '\u{2192}' | '\u{2794}' | '\u{2799}' | '\u{279C}' | '\u{27A4}' => Some("->"),
        '\u{2190}' => Some("<-"),
        '\u{2194}' => Some("<->"),
        '\u{2191}' => Some("^"),
        '\u{2193}' | '\u{25BC}' => Some("v"),
        '\u{2195}' => Some("^v"),
        '\u{21D2}' | '\u{27F9}' => Some("==>"),
        '\u{21D0}' | '\u{27F8}' => Some("<=="),
        '\u{21D4}' | '\u{27FA}' => Some("<==>"),
        '\u{21A6}' => Some("|->"),
        '\u{21B5}' | '\u{23CE}' => Some("<-'"),
        '\u{27F6}' => Some("-->"),
        '\u{27F5}' => Some("<--"),
        '\u{27F7}' => Some("<-->"),
        '\u{21CC}' | '\u{21CB}' => Some("<=>"),
        '\u{2254}' => Some(":="),
        '\u{2255}' => Some("=:"),
        '\u{2218}' | '\u{25E6}' | '\u{25CB}' => Some("o"),
        '\u{22EE}' => Some("..."),
        '\u{2243}' | '\u{2248}' => Some("~="),
        '\u{2261}' => Some("==="),
        '\u{00B1}' => Some("+/-"),
        '\u{2213}' => Some("-/+"),
        '\u{2211}' => Some("sum"),
        '\u{220F}' => Some("prod"),
        '\u{222B}' => Some("int"),
        '\u{2207}' => Some("grad"),
        '\u{2206}' => Some("delta"),
        '\u{2205}' => Some("{}"),
        '\u{2208}' => Some("in"),
        '\u{220B}' => Some("ni"),
        '\u{2227}' => Some("and"),
        '\u{2228}' => Some("or"),
        '\u{2200}' => Some("forall"),
        '\u{2203}' => Some("exists"),
        '\u{2270}' => Some("!<="),
        '\u{2271}' => Some("!>="),
        '\u{2209}' => Some("!in"),
        '\u{220C}' => Some("!ni"),
        '\u{2224}' => Some("!|"),
        '\u{2226}' => Some("!||"),
        '\u{2241}' => Some("!~"),
        '\u{2244}' => Some("!~="),
        '\u{2249}' => Some("!~~"),
        '\u{2262}' => Some("!=="),
        '\u{2022}' | '\u{2023}' | '\u{2043}' | '\u{2027}' | '\u{25AA}' | '\u{25AB}' => Some("-"),
        '\u{00A2}' => Some("c"),
        '\u{00A3}' => Some("GBP"),
        '\u{00A5}' => Some("JPY"),
        '\u{00A7}' => Some("S"),
        '\u{2030}' => Some("0/00"),
        '\u{25A1}' | '\u{2717}' | '\u{2718}' | '\u{274C}' | '\u{274E}' => Some("[ ]"),
        '\u{25B6}' => Some(">"),
        '\u{25C0}' => Some("<"),
        '\u{25C6}' | '\u{25C7}' => Some("<>"),
        '\u{2713}' | '\u{2714}' | '\u{2611}' | '\u{2705}' => Some("[x]"),
        '\u{2716}' => Some("x"),
        '\u{26A0}' => Some("[!]"),
        '\u{2757}' | '\u{2755}' => Some("!"),
        '\u{2753}' | '\u{2754}' => Some("?"),
        '\u{2B50}' => Some("*"),
        '\u{00A9}' => Some("(c)"),
        '\u{00AE}' => Some("(r)"),
        '\u{00B5}' => Some("u"),
        '\u{2126}' => Some("ohm"),
        '\u{02DA}' => Some("deg"),
        '\u{02BB}' => Some("'"),
        '\u{2318}' => Some("Cmd"),
        '\u{2325}' => Some("Opt"),
        '\u{2303}' => Some("Ctrl"),
        '\u{21E7}' => Some("Shift"),
        '\u{2387}' => Some("Alt"),
        '\u{238B}' => Some("Esc"),
        '\u{232B}' => Some("Bksp"),
        '\u{2326}' => Some("Del"),
        '\u{23CF}' => Some("Eject"),
        _ => None,
    }
}

/// The symbol transliterations contain no CR, NEL, LS or PS.
pub proof fn lemma_symbol_mapping_lf(c: char)
    ensures
        symbol_mapping(c) matches Some(m) ==> lf_only(m@),
{
    reveal_strlit("->");
    reveal_strlit("<-");
    reveal_strlit("<->");
    reveal_strlit("^");
    reveal_strlit("v");
    reveal_strlit("^v");
    reveal_strlit("==>");
    reveal_strlit("<==");
    reveal_strlit("<==>");
    reveal_strlit("|->");
    reveal_strlit("<-'");
    reveal_strlit("-->");
    reveal_strlit("<--");
    reveal_strlit("<-->");
    reveal_strlit("<=>");
    reveal_strlit(":=");
    reveal_strlit("=:");
    reveal_strlit("o");
    reveal_strlit("...");
    reveal_strlit("~=");
    reveal_strlit("===");
    reveal_strlit("+/-");
    reveal_strlit("-/+");
    reveal_strlit("sum");
    reveal_strlit("prod");
    reveal_strlit("int");
    reveal_strlit("grad");
    reveal_strlit("delta");
    reveal_strlit("{}");
    reveal_strlit("in");
    reveal_strlit("ni");
    reveal_strlit("and");
    reveal_strlit("or");
    reveal_strlit("forall");
    reveal_strlit("exists");
    reveal_strlit("!<=");
    reveal_strlit("!>=");
    reveal_strlit("!in");
    reveal_strlit("!ni");
    reveal_strlit("!|");
    reveal_strlit("!||");
    reveal_strlit("!~");
    reveal_strlit("!~=");
    reveal_strlit("!~~");
    reveal_strlit("!==");
    reveal_strlit("-");
    reveal_strlit("c");
    reveal_strlit("GBP");
    reveal_strlit("JPY");
    reveal_strlit("S");
    reveal_strlit("0/00");
    reveal_strlit("[ ]");
    reveal_strlit(">");
    reveal_strlit("<");
    reveal_strlit("<>");
    reveal_strlit("[x]");
    reveal_strlit("x");
    reveal_strlit("[!]");
    reveal_strlit("!");
    reveal_strlit("?");
    reveal_strlit("*");
    reveal_strlit("(c)");
    reveal_strlit("(r)");
    reveal_strlit("u");
    reveal_strlit("ohm");
    reveal_strlit("deg");
    reveal_strlit("'");
    reveal_strlit("Cmd");
    reveal_strlit("Opt");
    reveal_strlit("Ctrl");
    reveal_strlit("Shift");
    reveal_strlit("Alt");
    reveal_strlit("Esc");
    reveal_strlit("Bksp");
    reveal_strlit("Del");
    reveal_strlit("Eject");
}

/// The Greek letter names contain no CR, NEL, LS or PS.
pub proof fn lemma_greek_name_lf(c: char)
    ensures
        greek_name(c) matches Some(m) ==> lf_only(m@),
{
    reveal_strlit("Alpha");
    reveal_strlit("Epsilon");
    reveal_strlit("Eta");
    reveal_strlit("Iota");
    reveal_strlit("Omicron");
    reveal_strlit("Upsilon");
    reveal_strlit("Omega");
    reveal_strlit("iota");
    reveal_strlit("Beta");
    reveal_strlit("Gamma");
    reveal_strlit("Delta");
    reveal_strlit("Zeta");
    reveal_strlit("Theta");
    reveal_strlit("Kappa");
    reveal_strlit("Lambda");
    reveal_strlit("Mu");
    reveal_strlit("Nu");
    reveal_strlit("Xi");
    reveal_strlit("Pi");
    reveal_strlit("Rho");
    reveal_strlit("Sigma");
    reveal_strlit("Tau");
    reveal_strlit("Phi");
    reveal_strlit("Chi");
    reveal_strlit("Psi");
    reveal_strlit("alpha");
    reveal_strlit("epsilon");
    reveal_strlit("eta");
    reveal_strlit("upsilon");
    reveal_strlit("beta");
    reveal_strlit("gamma");
    reveal_strlit("delta");
    reveal_strlit("zeta");
    reveal_strlit("theta");
    reveal_strlit("kappa");
    reveal_strlit("lambda");
    reveal_strlit("mu");
    reveal_strlit("nu");
    reveal_strlit("xi");
    reveal_strlit("omicron");
    reveal_strlit("pi");
    reveal_strlit("rho");
    reveal_strlit("sigma");
    reveal_strlit("tau");
    reveal_strlit("phi");
    reveal_strlit("chi");
    reveal_strlit("psi");
    reveal_strlit("omega");
}

} // verus!
