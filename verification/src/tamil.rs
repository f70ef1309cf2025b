//! Tamil character helpers: phonetic classification of single characters
//! following the traditional three consonant classes, plus helpers that
//! inspect the boundary characters of a word.

use vstd::prelude::*;
use vstd::string::StrSliceExecFns;

verus! {

/// The pulli (virama) diacritic: marks a consonant with no inherent vowel.
pub const PULLI: char = '\u{0BCD}';

/// Vallinam (hard consonants): க, ச, ட, த, ப, ற.
pub open spec fn spec_is_vallinam(c: char) -> bool {
    c == 'க' || c == 'ச' || c == 'ட' || c == 'த' || c == 'ப' || c == 'ற'
}

/// Mellinam (soft / nasal consonants): ங, ஞ, ண, ந, ம, ன.
pub open spec fn spec_is_mellinam(c: char) -> bool {
    c == 'ங' || c == 'ஞ' || c == 'ண' || c == 'ந' || c == 'ம' || c == 'ன'
}

/// Idaiyinam (medium consonants): ய, ர, ல, வ, ழ, ள.
pub open spec fn spec_is_idaiyinam(c: char) -> bool {
    c == 'ய' || c == 'ர' || c == 'ல' || c == 'வ' || c == 'ழ' || c == 'ள'
}

/// Kuril (short vowels): அ, இ, உ, எ, ஒ.
pub open spec fn spec_is_kuril(c: char) -> bool {
    c == 'அ' || c == 'இ' || c == 'உ' || c == 'எ' || c == 'ஒ'
}

/// Nedil (long vowels): ஆ, ஈ, ஊ, ஏ, ஓ, ஐ, ஔ.
pub open spec fn spec_is_nedil(c: char) -> bool {
    c == 'ஆ' || c == 'ஈ' || c == 'ஊ' || c == 'ஏ' || c == 'ஓ' || c == 'ஐ' || c == 'ஔ'
}

pub open spec fn spec_is_pulli(c: char) -> bool {
    c == PULLI
}

/// Any standalone vowel, short or long.
pub open spec fn spec_is_uyir(c: char) -> bool {
    spec_is_kuril(c) || spec_is_nedil(c)
}

/// Any consonant letter, from any of the three classes.
pub open spec fn spec_is_mei(c: char) -> bool {
    spec_is_vallinam(c) || spec_is_mellinam(c) || spec_is_idaiyinam(c)
}

/// The nasal paired with a hard consonant, used for nasal insertion:
/// க→ங, ச→ஞ, ட→ண, த→ந, ப→ம, ற→ன.
pub open spec fn spec_vallinam_to_mellinam(c: char) -> Option<char> {
    if c == 'க' {
        Some('ங')
    } else if c == 'ச' {
        Some('ஞ')
    } else if c == 'ட' {
        Some('ண')
    } else if c == 'த' {
        Some('ந')
    } else if c == 'ப' {
        Some('ம')
    } else if c == 'ற' {
        Some('ன')
    } else {
        None
    }
}

pub fn is_vallinam(c: char) -> (r: bool)
    ensures
        r == spec_is_vallinam(c),
{
    c == 'க' || c == 'ச' || c == 'ட' || c == 'த' || c == 'ப' || c == 'ற'
}

pub fn is_mellinam(c: char) -> (r: bool)
    ensures
        r == spec_is_mellinam(c),
{
    c == 'ங' || c == 'ஞ' || c == 'ண' || c == 'ந' || c == 'ம' || c == 'ன'
}

pub fn is_idaiyinam(c: char) -> (r: bool)
    ensures
        r == spec_is_idaiyinam(c),
{
    c == 'ய' || c == 'ர' || c == 'ல' || c == 'வ' || c == 'ழ' || c == 'ள'
}

pub fn is_kuril(c: char) -> (r: bool)
    ensures
        r == spec_is_kuril(c),
{
    c == 'அ' || c == 'இ' || c == 'உ' || c == 'எ' || c == 'ஒ'
}

pub fn is_nedil(c: char) -> (r: bool)
    ensures
        r == spec_is_nedil(c),
{
    c == 'ஆ' || c == 'ஈ' || c == 'ஊ' || c == 'ஏ' || c == 'ஓ' || c == 'ஐ' || c == 'ஔ'
}

pub fn is_pulli(c: char) -> (r: bool)
    ensures
        r == spec_is_pulli(c),
{
    c == PULLI
}

pub fn is_uyir(c: char) -> (r: bool)
    ensures
        r == spec_is_uyir(c),
{
    is_kuril(c) || is_nedil(c)
}

pub fn is_mei(c: char) -> (r: bool)
    ensures
        r == spec_is_mei(c),
{
    is_vallinam(c) || is_mellinam(c) || is_idaiyinam(c)
}

pub fn vallinam_to_mellinam(c: char) -> (r: Option<char>)
    ensures
        r == spec_vallinam_to_mellinam(c),
{
    match c {
        'க' => Some('ங'),
        'ச' => Some('ஞ'),
        'ட' => Some('ண'),
        'த' => Some('ந'),
        'ப' => Some('ம'),
        'ற' => Some('ன'),
        _ => None,
    }
}

/// A base consonant letter, recognised by its position in the Tamil
/// consonant block; other characters have no base consonant.
pub open spec fn spec_get_base_consonant(c: char) -> Option<char> {
    if 0x0B95 <= c as u32 && c as u32 <= 0x0BB9 {
        Some(c)
    } else {
        None
    }
}

pub fn get_base_consonant(c: char) -> (r: Option<char>)
    ensures
        r == spec_get_base_consonant(c),
{
    let cp = c as u32;
    if 0x0B95 <= cp && cp <= 0x0BB9 {
        Some(c)
    } else {
        None
    }
}

/// A word ends with a short vowel sound when its last character is a
/// standalone short vowel, or a mark in the consonant-and-vowel block
/// that is neither a bare consonant letter nor the pulli.
pub open spec fn spec_ends_with_short_vowel(w: Seq<char>) -> bool {
    if w.len() == 0 {
        false
    } else {
        let last = w.last();
        if spec_is_kuril(last) {
            true
        } else if !spec_is_pulli(last) && spec_is_mei(last) {
            false
        } else {
            0x0B95 <= last as u32 && last as u32 <= 0x0BD7 && !spec_is_pulli(last)
        }
    }
}

pub fn ends_with_short_vowel(word: &str) -> (r: bool)
    ensures
        r == spec_ends_with_short_vowel(word@),
{
    let n = word.unicode_len();
    if n == 0 {
        return false;
    }
    let last = word.get_char(n - 1);
    if is_kuril(last) {
        return true;
    }
    if !is_pulli(last) && is_mei(last) {
        return false;
    }
    let cp = last as u32;
    0x0B95 <= cp && cp <= 0x0BD7 && !is_pulli(last)
}

pub open spec fn spec_ends_with_pulli(w: Seq<char>) -> bool {
    w.len() > 0 && spec_is_pulli(w.last())
}

pub fn ends_with_pulli(word: &str) -> (r: bool)
    ensures
        r == spec_ends_with_pulli(word@),
{
    let n = word.unicode_len();
    n > 0 && is_pulli(word.get_char(n - 1))
}

/// The first character of a word, if it is a consonant letter.
pub open spec fn spec_first_consonant(w: Seq<char>) -> Option<char> {
    if w.len() > 0 && spec_is_mei(w.first()) {
        Some(w.first())
    } else {
        None
    }
}

pub fn first_consonant(word: &str) -> (r: Option<char>)
    ensures
        r == spec_first_consonant(word@),
{
    let n = word.unicode_len();
    if n > 0 {
        let c = word.get_char(0);
        if is_mei(c) {
            return Some(c);
        }
    }
    None
}

} // verus!
