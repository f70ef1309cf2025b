//! The phonetic layout: immutable tables mapping key tokens to graphemes,
//! and the consonant + vowel composition table.
//!
//! Every table is an association list searched front to back; a lookup
//! returns the first binding for a key, so duplicate keys are harmless.

use crate::text::str_eq;
use vstd::prelude::*;
use vstd::string::StrSliceExecFns;
use vstd::string::StringExecFns;

verus! {

/// A complete layout definition: key-to-grapheme layers plus the
/// composition table. The tables are built once, before the keyboard
/// engine starts, and are read-only thereafter.
pub struct LayoutDef {
    pub name: String,
    pub version: String,
    pub total_characters: u32,
    pub layers: Layers,
    pub modifiers: Modifiers,
}

/// The key layers: one consonant table and three vowel tables.
/// Each binding maps a key token to the grapheme it produces.
pub struct Layers {
    pub base: Vec<(String, String)>,
    pub vowels: Vec<(String, String)>,
    pub vowels_long: Vec<(String, String)>,
    pub vowels_special: Vec<(String, String)>,
}

/// Modifier configuration: the token of the long-vowel modifier and the
/// composition table, keyed by the pair (consonant grapheme, vowel
/// grapheme).
pub struct Modifiers {
    pub nedil_shift: String,
    pub combinations: Vec<(String, String, String)>,
}

/// The first binding for `key` in an association table, if any.
pub open spec fn spec_assoc(table: Seq<(String, String)>, key: Seq<char>) -> Option<Seq<char>>
    decreases table.len(),
{
    if table.len() == 0 {
        None
    } else if table.first().0@ == key {
        Some(table.first().1@)
    } else {
        spec_assoc(table.drop_first(), key)
    }
}

/// Search an association table for `key`, returning a copy of the first
/// bound grapheme.
fn assoc_lookup(table: &Vec<(String, String)>, key: &str) -> (r: Option<String>)
    ensures
        r matches Some(g) ==> spec_assoc(table@, key@) matches Some(s) && g@ == s,
        r is None ==> spec_assoc(table@, key@) is None,
{
    let n = table.len();
    let mut i: usize = 0;
    assert(table@.skip(0) =~= table@);
    while i < n
        invariant
            n == table@.len(),
            i <= n,
            spec_assoc(table@, key@) == spec_assoc(table@.skip(i as int), key@),
        decreases n - i,
    {
        let ghost pre = table@.skip(i as int);
        assert(pre.first() == table@[i as int]);
        if str_eq(table[i].0.as_str(), key) {
            return Some(String::from_str(table[i].1.as_str()));
        }
        assert(pre.drop_first() =~= table@.skip(i as int + 1));
        i = i + 1;
    }
    assert(table@.skip(n as int) =~= Seq::<(String, String)>::empty());
    None
}

impl LayoutDef {
    /// The grapheme bound to `key` in the base consonant layer.
    pub fn base_lookup(&self, key: &str) -> (r: Option<String>)
        ensures
            r matches Some(g) ==> self.spec_base_lookup(key@) matches Some(s) && g@ == s,
            r is None ==> self.spec_base_lookup(key@) is None,
    {
        assoc_lookup(&self.layers.base, key)
    }

    pub open spec fn spec_base_lookup(&self, key: Seq<char>) -> Option<Seq<char>> {
        spec_assoc(self.layers.base@, key)
    }

    /// The grapheme bound to `key` in the short vowel layer.
    pub fn vowel_lookup(&self, key: &str) -> (r: Option<String>)
        ensures
            r matches Some(g) ==> self.spec_vowel_lookup(key@) matches Some(s) && g@ == s,
            r is None ==> self.spec_vowel_lookup(key@) is None,
    {
        assoc_lookup(&self.layers.vowels, key)
    }

    pub open spec fn spec_vowel_lookup(&self, key: Seq<char>) -> Option<Seq<char>> {
        spec_assoc(self.layers.vowels@, key)
    }

    /// The grapheme bound to `key` in the long vowel layer.
    pub fn vowel_long_lookup(&self, key: &str) -> (r: Option<String>)
        ensures
            r matches Some(g) ==> self.spec_vowel_long_lookup(key@) matches Some(s) && g@ == s,
            r is None ==> self.spec_vowel_long_lookup(key@) is None,
    {
        assoc_lookup(&self.layers.vowels_long, key)
    }

    pub open spec fn spec_vowel_long_lookup(&self, key: Seq<char>) -> Option<Seq<char>> {
        spec_assoc(self.layers.vowels_long@, key)
    }

    /// The grapheme bound to `key` in the special vowel layer.
    pub fn vowel_special_lookup(&self, key: &str) -> (r: Option<String>)
        ensures
            r matches Some(g) ==> self.spec_vowel_special_lookup(key@) matches Some(s) && g@ == s,
            r is None ==> self.spec_vowel_special_lookup(key@) is None,
    {
        assoc_lookup(&self.layers.vowels_special, key)
    }

    pub open spec fn spec_vowel_special_lookup(&self, key: Seq<char>) -> Option<Seq<char>> {
        spec_assoc(self.layers.vowels_special@, key)
    }

    /// A vowel for `key`: with `is_long` only the long table is consulted;
    /// otherwise the short table, falling back to the special table.
    pub open spec fn spec_any_vowel_lookup(&self, key: Seq<char>, is_long: bool) -> Option<
        Seq<char>,
    > {
        if is_long {
            self.spec_vowel_long_lookup(key)
        } else if self.spec_vowel_lookup(key) is Some {
            self.spec_vowel_lookup(key)
        } else {
            self.spec_vowel_special_lookup(key)
        }
    }

    pub fn any_vowel_lookup(&self, key: &str, is_long: bool) -> (r: Option<String>)
        ensures
            r matches Some(g) ==> self.spec_any_vowel_lookup(key@, is_long) matches Some(s) && g@
                == s,
            r is None ==> self.spec_any_vowel_lookup(key@, is_long) is None,
    {
        if is_long {
            self.vowel_long_lookup(key)
        } else {
            match self.vowel_lookup(key) {
                Some(g) => Some(g),
                None => self.vowel_special_lookup(key),
            }
        }
    }

    /// The composed grapheme for a consonant + vowel pair: the first
    /// matching entry of the composition table, or nothing when the pair
    /// does not compose.
    pub open spec fn spec_combine(&self, consonant: Seq<char>, vowel: Seq<char>) -> Option<
        Seq<char>,
    > {
        spec_combine_table(self.modifiers.combinations@, consonant, vowel)
    }

    pub fn combine(&self, consonant: &str, vowel: &str) -> (r: Option<String>)
        ensures
            r matches Some(g) ==> self.spec_combine(consonant@, vowel@) matches Some(s) && g@ == s,
            r is None ==> self.spec_combine(consonant@, vowel@) is None,
    {
        let table = &self.modifiers.combinations;
        let n = table.len();
        let mut i: usize = 0;
        assert(table@.skip(0) =~= table@);
        while i < n
            invariant
                n == table@.len(),
                i <= n,
                table@ == self.modifiers.combinations@,
                spec_combine_table(table@, consonant@, vowel@) == spec_combine_table(
                    table@.skip(i as int),
                    consonant@,
                    vowel@,
                ),
            decreases n - i,
        {
            let ghost pre = table@.skip(i as int);
            assert(pre.first() == table@[i as int]);
            let key_match = str_eq(table[i].0.as_str(), consonant) && str_eq(
                table[i].1.as_str(),
                vowel,
            );
            if key_match {
                assert(self.spec_combine(consonant@, vowel@) == Some(table@[i as int].2@));
                return Some(String::from_str(table[i].2.as_str()));
            }
            assert(pre.drop_first() =~= table@.skip(i as int + 1));
            i = i + 1;
        }
        assert(table@.skip(n as int) =~= Seq::<(String, String, String)>::empty());
        None
    }
}

pub open spec fn spec_combine_table(
    table: Seq<(String, String, String)>,
    consonant: Seq<char>,
    vowel: Seq<char>,
) -> Option<Seq<char>>
    decreases table.len(),
{
    if table.len() == 0 {
        None
    } else if table.first().0@ == consonant && table.first().1@ == vowel {
        Some(table.first().2@)
    } else {
        spec_combine_table(table.drop_first(), consonant, vowel)
    }
}

/// Composition is a pure function of the layout and the pair: the
/// contract of `combine` pins its result to `spec_combine`, so any two
/// calls on identical inputs return identical results, and a pair
/// without an entry yields `None` rather than a failure.
pub proof fn lemma_combine_deterministic(
    layout: &LayoutDef,
    consonant: Seq<char>,
    vowel: Seq<char>,
    r1: Option<Seq<char>>,
    r2: Option<Seq<char>>,
)
    requires
        r1 == layout.spec_combine(consonant, vowel),
        r2 == layout.spec_combine(consonant, vowel),
    ensures
        r1 == r2,
        layout.spec_combine(consonant, vowel) is None <==> r1 is None,
{
}

} // verus!
