//! Rewriting a grapheme cluster into keyboard-safe output: compatibility
//! folding, curated transliterations and the scoped long-tail fallback.

use vstd::prelude::*;
use vstd::string::*;
use crate::options::NonAsciiPolicy;
use crate::sets::{
    common_symbol_or_punctuation, emoji_property, is_common_symbol_or_punctuation, is_emoji,
    is_keyboard_allowed, is_latin_script, is_white_space, keyboard_allowed, latin_script,
    white_space,
};
use crate::tables::{greek_name, greek_translit, symbol_mapping, symbol_translit};
use crate::text::{chars_of, deunicode, deunicode_of, nfkd, nfkd_of};
use crate::util::{count_where, expand, lemma_count_le_len, lemma_count_take, lemma_expand_take};
use crate::lines::{lemma_concat_lf, lemma_expand_lf, lf_clean, lf_only};
use crate::tables::{lemma_greek_name_lf, lemma_symbol_mapping_lf};

verus! {

/// U+2044 FRACTION SLASH.
pub const FRACTION_SLASH: char = '\u{2044}';

/// Meaning-preserving ASCII for the negated relational operators whose
/// compatibility decomposition would drop the negation (`≠` would become `=`).
pub open spec fn compat_override_text(c: char) -> Option<&'static str> {
    match c {
        '\u{2260}' => Some("!="),
        '\u{226E}' => Some("!<"),
        '\u{226F}' => Some("!>"),
        _ => None,
    }
}

/// Executable form of [`compat_override_text`].
pub fn compat_override(c: char) -> (r: Option<&'static str>)
    ensures
        r == compat_override_text(c),
{
    match c {
        '\u{2260}' => Some("!="),
        '\u{226E}' => Some("!<"),
        '\u{226F}' => Some("!>"),
        _ => None,
    }
}

/// Latin letters that must be spelled out rather than folded.
pub open spec fn letter_override_text(c: char) -> Option<&'static str> {
    match c {
        'ß' => Some("ss"),
        'ẞ' => Some("SS"),
        _ => None,
    }
}

/// Executable form of [`letter_override_text`].
pub fn transliteration_override(c: char) -> (r: Option<&'static str>)
    ensures
        r == letter_override_text(c),
{
    match c {
        'ß' => Some("ss"),
        'ẞ' => Some("SS"),
        _ => None,
    }
}

/// ASCII stand-ins for the few non-keyboard characters a mapping may produce.
pub open spec fn compatibility_ascii(c: char) -> Option<char> {
    if c == FRACTION_SLASH {
        Some('/')
    } else {
        None
    }
}

/// Executable form of [`compatibility_ascii`].
pub fn map_compatibility_ascii(c: char) -> (r: Option<char>)
    ensures
        r == compatibility_ascii(c),
{
    if c == FRACTION_SLASH {
        Some('/')
    } else {
        None
    }
}

/// What one character of a mapping contributes: itself when keyboard-safe,
/// its ASCII stand-in when it has one, nothing otherwise.
pub open spec fn mapped_piece(ext: bool) -> spec_fn(char) -> Seq<char> {
    |c: char|
        if keyboard_allowed(c, ext) {
            seq![c]
        } else {
            match compatibility_ascii(c) {
                Some(m) => seq![m],
                None => Seq::empty(),
            }
        }
}

/// A mapping text with every non-keyboard character discarded or replaced.
pub open spec fn ascii_mapping_text(m: Seq<char>, ext: bool) -> Seq<char> {
    expand(m, mapped_piece(ext))
}

/// What an optional mapping contributes.
pub open spec fn mapping_text(m: Option<&'static str>, ext: bool) -> Seq<char> {
    match m {
        Some(t) => ascii_mapping_text(t@, ext),
        None => Seq::empty(),
    }
}

/// One character of the compatibility decomposition of `c`: decomposition
/// spaces are dropped unless `c` itself is whitespace.
pub open spec fn fold_piece(c: char, ext: bool) -> spec_fn(char) -> Seq<char> {
    |d: char|
        if d == ' ' && !white_space(c) {
            Seq::empty()
        } else {
            mapped_piece(ext)(d)
        }
}

/// The keyboard-safe part of the compatibility decomposition of `c`.
pub open spec fn folded_text(c: char, ext: bool) -> Seq<char> {
    expand(nfkd_of(seq![c]), fold_piece(c, ext))
}

/// Curated transliterations, most specific first: spelled-out Latin letters,
/// symbols, Greek letter names.
pub open spec fn curated_mapping(c: char) -> Option<&'static str> {
    match letter_override_text(c) {
        Some(m) => Some(m),
        None => match symbol_mapping(c) {
            Some(m) => Some(m),
            None => greek_name(c),
        },
    }
}

/// Characters the long-tail transliteration fallback may romanize: Latin
/// script, or script-neutral symbols and punctuation that are not emoji.
pub open spec fn fallback_allowed(c: char) -> bool {
    latin_script(c) || (common_symbol_or_punctuation(c) && !emoji_property(c))
}

/// `s` without leading `White_Space` characters.
pub open spec fn trim_start(s: Seq<char>) -> Seq<char>
    decreases s.len(),
{
    if s.len() > 0 && white_space(s[0]) {
        trim_start(s.drop_first())
    } else {
        s
    }
}

/// `s` without trailing `White_Space` characters.
pub open spec fn trim_end(s: Seq<char>) -> Seq<char>
    decreases s.len(),
{
    if s.len() > 0 && white_space(s.last()) {
        trim_end(s.drop_last())
    } else {
        s
    }
}

/// `s` without leading and trailing `White_Space` (as std `str::trim`).
pub open spec fn trim_ws(s: Seq<char>) -> Seq<char> {
    trim_end(trim_start(s))
}

/// What transliteration contributes for `c`.
pub open spec fn transliterated_text(c: char, ext: bool) -> Seq<char> {
    match curated_mapping(c) {
        Some(m) => ascii_mapping_text(m@, ext),
        None => if fallback_allowed(c) {
            match deunicode_of(c) {
                Some(t) => ascii_mapping_text(trim_ws(t), ext),
                None => Seq::empty(),
            }
        } else {
            Seq::empty()
        },
    }
}

/// The replacement of a non-keyboard character under a non-ASCII policy,
/// trying the negation-preserving override, then compatibility folding, then
/// (for `Transliterate`) transliteration.
pub open spec fn replacement(policy: NonAsciiPolicy, ext: bool, c: char) -> Seq<char> {
    let a = mapping_text(compat_override_text(c), ext);
    match policy {
        NonAsciiPolicy::Drop => Seq::empty(),
        NonAsciiPolicy::Fold => if a.len() > 0 {
            a
        } else {
            folded_text(c, ext)
        },
        NonAsciiPolicy::Transliterate => if a.len() > 0 {
            a
        } else if folded_text(c, ext).len() > 0 {
            folded_text(c, ext)
        } else {
            transliterated_text(c, ext)
        },
    }
}

/// What one character of a cluster becomes in keyboard-only output.
pub open spec fn rewrite_piece(policy: NonAsciiPolicy, ext: bool) -> spec_fn(char) -> Seq<char> {
    |c: char|
        if keyboard_allowed(c, ext) {
            seq![c]
        } else {
            replacement(policy, ext, c)
        }
}

/// A cluster rewritten into keyboard-only output.
pub open spec fn rewritten(policy: NonAsciiPolicy, ext: bool, cl: Seq<char>) -> Seq<char> {
    expand(cl, rewrite_piece(policy, ext))
}

/// Non-keyboard characters that a rewrite replaces by something.
pub open spec fn transliterated_pred(policy: NonAsciiPolicy, ext: bool) -> spec_fn(char) -> bool {
    |c: char| !keyboard_allowed(c, ext) && replacement(policy, ext, c).len() > 0
}

/// Non-keyboard characters that a rewrite removes.
pub open spec fn removed_pred(policy: NonAsciiPolicy, ext: bool) -> spec_fn(char) -> bool {
    |c: char| !keyboard_allowed(c, ext) && replacement(policy, ext, c).len() == 0
}

/// The negation-preserving overrides contain no CR, NEL, LS or PS.
proof fn lemma_compat_override_lf(c: char)
    ensures
        compat_override_text(c) matches Some(m) ==> lf_only(m@),
{
    reveal_strlit("!=");
    reveal_strlit("!<");
    reveal_strlit("!>");
}

/// The spelled-out letters contain no CR, NEL, LS or PS.
proof fn lemma_letter_override_lf(c: char)
    ensures
        letter_override_text(c) matches Some(m) ==> lf_only(m@),
{
    reveal_strlit("ss");
    reveal_strlit("SS");
}

/// The curated transliterations contain no CR, NEL, LS or PS.
proof fn lemma_curated_lf(c: char)
    ensures
        curated_mapping(c) matches Some(m) ==> lf_only(m@),
{
    lemma_letter_override_lf(c);
    lemma_symbol_mapping_lf(c);
    lemma_greek_name_lf(c);
}

/// A mapping piece of a character other than CR, NEL, LS and PS is none of them.
proof fn lemma_mapped_piece_lf(ext: bool)
    ensures
        forall|c: char| lf_clean(c) ==> lf_only(#[trigger] mapped_piece(ext)(c)),
{
}

/// Mapping a text without CR, NEL, LS or PS gives a text without them.
proof fn lemma_ascii_mapping_lf(m: Seq<char>, ext: bool)
    requires
        lf_only(m),
    ensures
        lf_only(ascii_mapping_text(m, ext)),
{
    lemma_mapped_piece_lf(ext);
    lemma_expand_lf(m, mapped_piece(ext));
}

/// The override mapping of any character has no CR, NEL, LS or PS.
proof fn lemma_compat_mapping_lf(c: char, ext: bool)
    ensures
        lf_only(mapping_text(compat_override_text(c), ext)),
{
    lemma_compat_override_lf(c);
    if let Some(m) = compat_override_text(c) {
        lemma_ascii_mapping_lf(m@, ext);
    }
}

/// Trimming keeps a text without CR, NEL, LS or PS.
proof fn lemma_trim_lf(s: Seq<char>)
    requires
        lf_only(s),
    ensures
        lf_only(trim_ws(s)),
{
    lemma_trim_start_lf(s);
    lemma_trim_end_lf(trim_start(s));
}

proof fn lemma_trim_start_lf(s: Seq<char>)
    requires
        lf_only(s),
    ensures
        lf_only(trim_start(s)),
    decreases s.len(),
{
    if s.len() > 0 && white_space(s[0]) {
        let t = s.drop_first();
        assert(lf_only(t)) by {
            assert forall|i: int| 0 <= i < t.len() implies lf_clean(#[trigger] t[i]) by {
                assert(t[i] == s[i + 1]);
            }
        }
        lemma_trim_start_lf(t);
    }
}

proof fn lemma_trim_end_lf(s: Seq<char>)
    requires
        lf_only(s),
    ensures
        lf_only(trim_end(s)),
    decreases s.len(),
{
    if s.len() > 0 && white_space(s.last()) {
        let t = s.drop_last();
        assert(lf_only(t)) by {
            assert forall|i: int| 0 <= i < t.len() implies lf_clean(#[trigger] t[i]) by {
                assert(t[i] == s[i]);
            }
        }
        lemma_trim_end_lf(t);
    }
}

/// A keyboard-only rewrite of a cluster with its counters.
pub struct KeyboardAsciiRewrite {
    pub text: Vec<char>,
    pub non_ascii_transliterated: u64,
    pub non_ascii_removed: u64,
}

/// Append the keyboard-safe part of `mapped` to `out`.
pub fn append_ascii_mapping(mapped: &Vec<char>, out: &mut Vec<char>, ext: bool)
    ensures
        final(out)@ == old(out)@ + ascii_mapping_text(mapped@, ext),
{
    let mut i: usize = 0;
    while i < mapped.len()
        invariant
            i <= mapped.len(),
            out@ == old(out)@ + ascii_mapping_text(mapped@.take(i as int), ext),
        decreases mapped.len() - i,
    {
        let c = mapped[i];
        proof {
            lemma_expand_take(mapped@, mapped_piece(ext), i as int);
        }
        if is_keyboard_allowed(c, ext) {
            out.push(c);
        } else if let Some(m) = map_compatibility_ascii(c) {
            out.push(m);
        }
        proof {
            assert(out@ =~= old(out)@ + ascii_mapping_text(mapped@.take(i + 1), ext));
        }
        i = i + 1;
    }
    proof {
        assert(mapped@.take(mapped.len() as int) =~= mapped@);
    }
}

/// Apply an optional mapping, returning whether anything was emitted.
pub fn append_mapping(mapping: Option<&'static str>, out: &mut Vec<char>, ext: bool) -> (added: bool)
    ensures
        final(out)@ == old(out)@ + mapping_text(mapping, ext),
        added == (mapping_text(mapping, ext).len() > 0),
{
    match mapping {
        Some(text) => {
            let chars = chars_of(text);
            let before = out.len();
            append_ascii_mapping(&chars, out, ext);
            out.len() > before
        },
        None => false,
    }
}

/// Append the keyboard-safe part of the compatibility decomposition of `c`,
/// returning whether anything was emitted.
pub fn append_folded_non_ascii(c: char, out: &mut Vec<char>, ext: bool) -> (added: bool)
    ensures
        final(out)@ == old(out)@ + folded_text(c, ext),
        added == (folded_text(c, ext).len() > 0),
        lf_clean(c) ==> lf_only(folded_text(c, ext)),
{
    let source_is_space = is_white_space(c);
    let single = vec![c];
    assert(single@ =~= seq![c]);
    let decomposed = nfkd(&single);
    proof {
        if lf_clean(c) {
            assert forall|i: int| 0 <= i < decomposed@.len() implies lf_clean(#[trigger] decomposed@[i]) by {
                if !lf_clean(decomposed@[i]) {
                    assert(seq![c].contains(decomposed@[i]));
                }
            }
            lemma_mapped_piece_lf(ext);
            assert forall|d: char| lf_clean(d) implies lf_only(#[trigger] fold_piece(c, ext)(d)) by {
                assert(lf_only(mapped_piece(ext)(d)));
            }
            lemma_expand_lf(decomposed@, fold_piece(c, ext));
        }
    }
    let mut added = false;
    let mut i: usize = 0;
    while i < decomposed.len()
        invariant
            i <= decomposed.len(),
            decomposed@ == nfkd_of(seq![c]),
            source_is_space == white_space(c),
            out@ == old(out)@ + expand(decomposed@.take(i as int), fold_piece(c, ext)),
            added == (expand(decomposed@.take(i as int), fold_piece(c, ext)).len() > 0),
        decreases decomposed.len() - i,
    {
        let d = decomposed[i];
        proof {
            lemma_expand_take(decomposed@, fold_piece(c, ext), i as int);
        }
        if d == ' ' && !source_is_space {
        } else if is_keyboard_allowed(d, ext) {
            out.push(d);
            added = true;
        } else if let Some(m) = map_compatibility_ascii(d) {
            out.push(m);
            added = true;
        }
        proof {
            assert(out@ =~= old(out)@ + expand(decomposed@.take(i + 1), fold_piece(c, ext)));
        }
        i = i + 1;
    }
    proof {
        assert(decomposed@.take(decomposed.len() as int) =~= decomposed@);
    }
    added
}

/// `s` without leading and trailing `White_Space`.
pub fn trim_chars(s: &Vec<char>) -> (r: Vec<char>)
    ensures
        r@ == trim_ws(s@),
{
    let mut start: usize = 0;
    assert(s@.subrange(0, s.len() as int) =~= s@);
    while start < s.len() && is_white_space(s[start])
        invariant
            start <= s.len(),
            trim_start(s@) == trim_start(s@.subrange(start as int, s.len() as int)),
        decreases s.len() - start,
    {
        proof {
            let t = s@.subrange(start as int, s.len() as int);
            assert(t.drop_first() =~= s@.subrange(start + 1, s.len() as int));
        }
        start = start + 1;
    }
    let ghost front = s@.subrange(start as int, s.len() as int);
    assert(trim_start(s@) == front);
    let mut end: usize = s.len();
    while end > start && is_white_space(s[end - 1])
        invariant
            start <= end <= s.len(),
            front == s@.subrange(start as int, s.len() as int),
            trim_end(front) == trim_end(s@.subrange(start as int, end as int)),
        decreases end - start,
    {
        proof {
            let t = s@.subrange(start as int, end as int);
            assert(t.drop_last() =~= s@.subrange(start as int, end - 1));
        }
        end = end - 1;
    }
    let mut r: Vec<char> = Vec::new();
    let mut k: usize = start;
    while k < end
        invariant
            start <= k <= end <= s.len(),
            r@ == s@.subrange(start as int, k as int),
        decreases end - k,
    {
        r.push(s[k]);
        proof {
            assert(r@ =~= s@.subrange(start as int, k + 1));
        }
        k = k + 1;
    }
    r
}

/// Append the transliteration of `c`, returning whether anything was emitted.
pub fn append_transliterated_non_ascii(c: char, out: &mut Vec<char>, ext: bool) -> (added: bool)
    ensures
        final(out)@ == old(out)@ + transliterated_text(c, ext),
        added == (transliterated_text(c, ext).len() > 0),
        lf_only(transliterated_text(c, ext)),
{
    proof {
        lemma_curated_lf(c);
        if let Some(m) = curated_mapping(c) {
            lemma_ascii_mapping_lf(m@, ext);
        }
    }
    let curated = match transliteration_override(c) {
        Some(m) => Some(m),
        None => match symbol_translit(c) {
            Some(m) => Some(m),
            None => greek_translit(c),
        },
    };
    if curated.is_some() {
        return append_mapping(curated, out, ext);
    }
    if is_latin_script(c) || (is_common_symbol_or_punctuation(c) && !is_emoji(c)) {
        if let Some(mapped) = deunicode(c) {
            proof {
                assert forall|i: int| 0 <= i < mapped@.len() implies lf_clean(#[trigger] mapped@[i]) by {
                    assert(mapped@[i] == '\n' || (' ' <= mapped@[i] && mapped@[i] <= '~'));
                }
                lemma_trim_lf(mapped@);
                lemma_ascii_mapping_lf(trim_ws(mapped@), ext);
            }
            let trimmed = trim_chars(&mapped);
            let before = out.len();
            append_ascii_mapping(&trimmed, out, ext);
            return out.len() > before;
        }
    }
    false
}

/// Rewrite a cluster to keyboard-safe characters under `policy`; `None` when
/// nothing remains.
pub fn rewrite_cluster_to_keyboard_ascii(
    cluster: &Vec<char>,
    policy: NonAsciiPolicy,
    ext: bool,
) -> (r: Option<KeyboardAsciiRewrite>)
    ensures
        r is None <==> rewritten(policy, ext, cluster@).len() == 0,
        r matches Some(w) ==> {
            &&& w.text@ == rewritten(policy, ext, cluster@)
            &&& w.non_ascii_transliterated == count_where(cluster@, transliterated_pred(policy, ext))
            &&& w.non_ascii_removed == count_where(cluster@, removed_pred(policy, ext))
        },
        lf_only(cluster@) ==> lf_only(rewritten(policy, ext, cluster@)),
{
    let mut out: Vec<char> = Vec::new();
    let mut translit: u64 = 0;
    let mut removed: u64 = 0;
    let mut i: usize = 0;
    while i < cluster.len()
        invariant
            i <= cluster.len(),
            out@ == rewritten(policy, ext, cluster@.take(i as int)),
            translit == count_where(cluster@.take(i as int), transliterated_pred(policy, ext)),
            removed == count_where(cluster@.take(i as int), removed_pred(policy, ext)),
            lf_only(cluster@) ==> lf_only(out@),
        decreases cluster.len() - i,
    {
        let c = cluster[i];
        proof {
            lemma_expand_take(cluster@, rewrite_piece(policy, ext), i as int);
            lemma_count_take(cluster@, transliterated_pred(policy, ext), i as int);
            lemma_count_take(cluster@, removed_pred(policy, ext), i as int);
            lemma_count_le_len(cluster@.take(i as int), transliterated_pred(policy, ext));
            lemma_count_le_len(cluster@.take(i as int), removed_pred(policy, ext));
        }
        let ghost before = out@;
        proof {
            lemma_compat_mapping_lf(c, ext);
        }
        if is_keyboard_allowed(c, ext) {
            out.push(c);
            proof {
                if lf_only(cluster@) {
                    assert(lf_clean(cluster@[i as int]));
                    lemma_concat_lf(before, seq![c]);
                    assert(out@ =~= before + seq![c]);
                }
            }
        } else {
            let mapped = match policy {
                NonAsciiPolicy::Drop => false,
                NonAsciiPolicy::Fold => {
                    append_mapping(compat_override(c), &mut out, ext) || append_folded_non_ascii(
                        c,
                        &mut out,
                        ext,
                    )
                },
                NonAsciiPolicy::Transliterate => {
                    append_mapping(compat_override(c), &mut out, ext) || append_folded_non_ascii(
                        c,
                        &mut out,
                        ext,
                    ) || append_transliterated_non_ascii(c, &mut out, ext)
                },
            };
            assert(out@ =~= before + replacement(policy, ext, c));
            assert(mapped == (replacement(policy, ext, c).len() > 0));
            proof {
                if lf_only(cluster@) {
                    assert(lf_clean(cluster@[i as int]));
                    assert(lf_only(replacement(policy, ext, c)));
                    lemma_concat_lf(before, replacement(policy, ext, c));
                }
            }
            if mapped {
                translit = translit + 1;
            } else {
                removed = removed + 1;
            }
        }
        proof {
            assert(out@ =~= rewritten(policy, ext, cluster@.take(i + 1)));
        }
        i = i + 1;
    }
    proof {
        assert(cluster@.take(cluster.len() as int) =~= cluster@);
    }
    if out.len() == 0 {
        None
    } else {
        Some(KeyboardAsciiRewrite {
            text: out,
            non_ascii_transliterated: translit,
            non_ascii_removed: removed,
        })
    }
}

} // verus!
