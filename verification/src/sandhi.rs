//! The sandhi (punarchi) engine: given two adjacent words, an ordered
//! cascade of boundary rules proposes a transformed joined form, with a
//! fixed confidence score per rule.
//!
//! Confidence is expressed in hundredths, so `80` stands for a score of
//! 0.80 on the unit scale.

use crate::tamil;
use crate::text::push_char;
use vstd::prelude::*;
use vstd::string::StrSliceExecFns;
use vstd::string::StringExecFns;

verus! {

/// The word-joining engine; it holds only the append-only log of user
/// corrections.
pub struct AdhanSandhi {
    corrections: Vec<SandhiCorrection>,
}

/// One recorded user correction: the two words, the form the user
/// expected, and the name of the rule the engine had selected.
#[derive(Debug, Clone)]
pub struct SandhiCorrection {
    pub word1: String,
    pub word2: String,
    pub expected: String,
    pub rule_applied: String,
}

/// The closed set of boundary rules.
#[derive(Debug, Clone, PartialEq, Eq, Structural)]
pub enum SandhiRule {
    /// Natural joining, no change.
    IyalbuPunarchi,
    /// The starting hard consonant doubles.
    VallinamMigu,
    /// A nasal consonant is inserted or already present.
    MellinamMigu,
    /// A vowel mutates at the boundary.
    UyirmeiTiribu,
    /// A character is deleted at the boundary.
    TontruPunarchi,
    /// A glide consonant is inserted between vowels.
    IdaiyinamInsertion,
    /// No rule applies (an empty word on either side).
    NoRule,
}

/// The outcome of analysing one word pair.
#[derive(Debug, Clone)]
pub struct SandhiResult {
    pub output: String,
    pub rule: SandhiRule,
    /// Confidence in hundredths: 0 to 100.
    pub confidence: u32,
}

/// The mathematical counterpart of `SandhiResult`.
pub struct SandhiOutcome {
    pub output: Seq<char>,
    pub rule: SandhiRule,
    pub confidence: int,
}

/// Vallinam migu applies when the second word starts with a hard
/// consonant and the first word ends in a short vowel sound, or in a
/// character that is neither the pulli nor a standalone vowel.
pub open spec fn spec_vallinam_migu_applies(w1: Seq<char>, w2: Seq<char>) -> bool {
    &&& w1.len() > 0
    &&& w2.len() > 0
    &&& tamil::spec_is_vallinam(w2.first())
    &&& (tamil::spec_ends_with_short_vowel(w1) || (!tamil::spec_is_pulli(w1.last())
        && !tamil::spec_is_uyir(w1.last())))
}

/// Mellinam migu applies when the second word starts with a hard
/// consonant and the first word ends with the pulli after at least one
/// more character.
pub open spec fn spec_mellinam_migu_applies(w1: Seq<char>, w2: Seq<char>) -> bool {
    &&& w1.len() >= 2
    &&& w2.len() > 0
    &&& tamil::spec_is_vallinam(w2.first())
    &&& tamil::spec_is_pulli(w1.last())
    &&& (tamil::spec_is_mellinam(w1[w1.len() - 2]) || tamil::spec_vallinam_to_mellinam(
        w2.first(),
    ) is Some)
}

/// A glide is inserted between two standalone vowels.
pub open spec fn spec_idaiyinam_applies(w1: Seq<char>, w2: Seq<char>) -> bool {
    &&& w1.len() > 0
    &&& w2.len() > 0
    &&& tamil::spec_is_uyir(w1.last())
    &&& tamil::spec_is_uyir(w2.first())
}

/// The pulli is deleted when a vowel follows it.
pub open spec fn spec_tontru_applies(w1: Seq<char>, w2: Seq<char>) -> bool {
    &&& w1.len() > 0
    &&& w2.len() > 0
    &&& tamil::spec_is_pulli(w1.last())
    &&& tamil::spec_is_uyir(w2.first())
}

/// The long-aa vowel sign mutates into the glide consonant வ before a
/// vowel.
pub open spec fn spec_uyirmei_tiribu_applies(w1: Seq<char>, w2: Seq<char>) -> bool {
    &&& w1.len() > 0
    &&& w2.len() > 0
    &&& w1.last() == '\u{0BBE}'
    &&& tamil::spec_is_uyir(w2.first())
}

/// The full rule cascade: the first applicable rule decides the result.
pub open spec fn spec_analyze(w1: Seq<char>, w2: Seq<char>) -> SandhiOutcome {
    if w1.len() == 0 || w2.len() == 0 {
        SandhiOutcome { output: w1 + w2, rule: SandhiRule::NoRule, confidence: 100 }
    } else if spec_vallinam_migu_applies(w1, w2) {
        SandhiOutcome {
            output: w1 + seq![w2.first(), tamil::PULLI] + w2,
            rule: SandhiRule::VallinamMigu,
            confidence: 80,
        }
    } else if spec_mellinam_migu_applies(w1, w2) {
        if tamil::spec_is_mellinam(w1[w1.len() - 2]) {
            SandhiOutcome { output: w1 + w2, rule: SandhiRule::MellinamMigu, confidence: 85 }
        } else {
            SandhiOutcome {
                output: w1.take(w1.len() - 2) + seq![
                    tamil::spec_vallinam_to_mellinam(w2.first()).unwrap(),
                    tamil::PULLI,
                ] + w2,
                rule: SandhiRule::MellinamMigu,
                confidence: 75,
            }
        }
    } else if spec_idaiyinam_applies(w1, w2) {
        SandhiOutcome {
            output: w1 + seq!['ய', tamil::PULLI] + w2,
            rule: SandhiRule::IdaiyinamInsertion,
            confidence: 70,
        }
    } else if spec_tontru_applies(w1, w2) {
        SandhiOutcome {
            output: w1.take(w1.len() - 1) + w2,
            rule: SandhiRule::TontruPunarchi,
            confidence: 75,
        }
    } else if spec_uyirmei_tiribu_applies(w1, w2) {
        SandhiOutcome {
            output: w1.take(w1.len() - 1) + seq!['வ'] + w2,
            rule: SandhiRule::UyirmeiTiribu,
            confidence: 70,
        }
    } else {
        SandhiOutcome { output: w1 + w2, rule: SandhiRule::IyalbuPunarchi, confidence: 60 }
    }
}

/// The printable name of a rule, as recorded in the correction log.
pub open spec fn spec_rule_name(r: SandhiRule) -> Seq<char> {
    match r {
        SandhiRule::IyalbuPunarchi => "IyalbuPunarchi"@,
        SandhiRule::VallinamMigu => "VallinamMigu"@,
        SandhiRule::MellinamMigu => "MellinamMigu"@,
        SandhiRule::UyirmeiTiribu => "UyirmeiTiribu"@,
        SandhiRule::TontruPunarchi => "TontruPunarchi"@,
        SandhiRule::IdaiyinamInsertion => "IdaiyinamInsertion"@,
        SandhiRule::NoRule => "NoRule"@,
    }
}

pub fn rule_name(r: &SandhiRule) -> (s: String)
    ensures
        s@ == spec_rule_name(*r),
{
    match r {
        SandhiRule::IyalbuPunarchi => String::from_str("IyalbuPunarchi"),
        SandhiRule::VallinamMigu => String::from_str("VallinamMigu"),
        SandhiRule::MellinamMigu => String::from_str("MellinamMigu"),
        SandhiRule::UyirmeiTiribu => String::from_str("UyirmeiTiribu"),
        SandhiRule::TontruPunarchi => String::from_str("TontruPunarchi"),
        SandhiRule::IdaiyinamInsertion => String::from_str("IdaiyinamInsertion"),
        SandhiRule::NoRule => String::from_str("NoRule"),
    }
}

impl AdhanSandhi {
    /// The recorded corrections, oldest first.
    pub closed spec fn spec_corrections(&self) -> Seq<SandhiCorrection> {
        self.corrections@
    }

    pub fn new() -> (s: Self)
        ensures
            s.spec_corrections() == Seq::<SandhiCorrection>::empty(),
    {
        AdhanSandhi { corrections: Vec::new() }
    }

    /// The joined form that the rule cascade proposes for the two words.
    pub fn check_punarchi(&self, word1: &str, word2: &str) -> (r: String)
        ensures
            r@ == spec_analyze(word1@, word2@).output,
    {
        let result = self.analyze(word1, word2);
        result.output
    }

    /// Full analysis of the boundary between `word1` and `word2`: the
    /// first applicable rule of the cascade, its output, and its fixed
    /// confidence. Total over all inputs; an empty word on either side
    /// gives the plain concatenation under `NoRule`.
    pub fn analyze(&self, word1: &str, word2: &str) -> (r: SandhiResult)
        ensures
            r.output@ == spec_analyze(word1@, word2@).output,
            r.rule == spec_analyze(word1@, word2@).rule,
            r.confidence as int == spec_analyze(word1@, word2@).confidence,
    {
        let n1 = word1.unicode_len();
        let n2 = word2.unicode_len();
        if n1 == 0 || n2 == 0 {
            let out = String::from_str(word1).concat(word2);
            return SandhiResult { output: out, rule: SandhiRule::NoRule, confidence: 100 };
        }
        let last = word1.get_char(n1 - 1);
        let first = word2.get_char(0);

        // Vallinam migu: double the starting hard consonant.
        if tamil::is_vallinam(first) && (tamil::ends_with_short_vowel(word1) || (!tamil::is_pulli(
            last,
        ) && !tamil::is_uyir(last))) {
            let mut out = String::from_str(word1);
            push_char(&mut out, first);
            push_char(&mut out, tamil::PULLI);
            let out = out.concat(word2);
            assert(out@ =~= word1@ + seq![word2@.first(), tamil::PULLI] + word2@);
            return SandhiResult { output: out, rule: SandhiRule::VallinamMigu, confidence: 80 };
        }

        // Mellinam migu: insert the paired nasal before the hard consonant.
        if tamil::is_vallinam(first) && tamil::is_pulli(last) && n1 >= 2 {
            let before = word1.get_char(n1 - 2);
            if tamil::is_mellinam(before) {
                let out = String::from_str(word1).concat(word2);
                return SandhiResult { output: out, rule: SandhiRule::MellinamMigu, confidence: 85 };
            }
            if let Some(nasal) = tamil::vallinam_to_mellinam(first) {
                let base = word1.substring_char(0, n1 - 2);
                let mut out = String::from_str(base);
                push_char(&mut out, nasal);
                push_char(&mut out, tamil::PULLI);
                let out = out.concat(word2);
                assert(out@ =~= word1@.take(word1@.len() - 2) + seq![
                    tamil::spec_vallinam_to_mellinam(word2@.first()).unwrap(),
                    tamil::PULLI,
                ] + word2@);
                return SandhiResult { output: out, rule: SandhiRule::MellinamMigu, confidence: 75 };
            }
        }

        // Idaiyinam insertion: a glide between two vowels.
        if tamil::is_uyir(last) && tamil::is_uyir(first) {
            let mut out = String::from_str(word1);
            push_char(&mut out, 'ய');
            push_char(&mut out, tamil::PULLI);
            let out = out.concat(word2);
            assert(out@ =~= word1@ + seq!['ய', tamil::PULLI] + word2@);
            return SandhiResult {
                output: out,
                rule: SandhiRule::IdaiyinamInsertion,
                confidence: 70,
            };
        }

        // Tontru punarchi: delete the pulli before a vowel.
        if tamil::is_pulli(last) && tamil::is_uyir(first) {
            let base = word1.substring_char(0, n1 - 1);
            let out = String::from_str(base).concat(word2);
            assert(out@ =~= word1@.take(word1@.len() - 1) + word2@);
            return SandhiResult { output: out, rule: SandhiRule::TontruPunarchi, confidence: 75 };
        }

        // Uyirmei tiribu: the long-aa sign becomes the glide வ.
        if last == '\u{0BBE}' && tamil::is_uyir(first) {
            let base = word1.substring_char(0, n1 - 1);
            let mut out = String::from_str(base);
            push_char(&mut out, 'வ');
            let out = out.concat(word2);
            assert(out@ =~= word1@.take(word1@.len() - 1) + seq!['வ'] + word2@);
            return SandhiResult { output: out, rule: SandhiRule::UyirmeiTiribu, confidence: 70 };
        }

        // Iyalbu punarchi: natural concatenation.
        let out = String::from_str(word1).concat(word2);
        SandhiResult { output: out, rule: SandhiRule::IyalbuPunarchi, confidence: 60 }
    }

    /// Re-runs the analysis to capture the currently selected rule, then
    /// appends the correction to the log.
    pub fn record_correction(&mut self, word1: &str, word2: &str, expected: &str)
        ensures
            final(self).spec_corrections().len() == old(self).spec_corrections().len() + 1,
            final(self).spec_corrections().drop_last() == old(self).spec_corrections(),
            final(self).spec_corrections().last().word1@ == word1@,
            final(self).spec_corrections().last().word2@ == word2@,
            final(self).spec_corrections().last().expected@ == expected@,
            final(self).spec_corrections().last().rule_applied@ == spec_rule_name(
                spec_analyze(word1@, word2@).rule,
            ),
    {
        let analysis = self.analyze(word1, word2);
        self.corrections.push(
            SandhiCorrection {
                word1: String::from_str(word1),
                word2: String::from_str(word2),
                expected: String::from_str(expected),
                rule_applied: rule_name(&analysis.rule),
            },
        );
        assert(self.corrections@.drop_last() =~= old(self).corrections@);
    }

    /// The number of recorded corrections, saturating at the largest
    /// reportable count.
    pub fn get_corrections_count(&self) -> (r: u32)
        ensures
            r as nat == vstd::math::min(self.spec_corrections().len() as int, u32::MAX as int),
    {
        let n = self.corrections.len();
        if n > u32::MAX as usize {
            u32::MAX
        } else {
            n as u32
        }
    }
}

/// Rule selection is deterministic and total: for non-empty words the
/// cascade returns exactly one rule, never `NoRule`, with a confidence
/// strictly between zero and one on the unit scale.
pub proof fn lemma_analyze_total(w1: Seq<char>, w2: Seq<char>)
    requires
        w1.len() > 0,
        w2.len() > 0,
    ensures
        spec_analyze(w1, w2).rule != SandhiRule::NoRule,
        60 <= spec_analyze(w1, w2).confidence <= 85,
{
}

/// The cascade respects the rule order: a hard consonant following the
/// pulli selects mellinam migu (nasal insertion), never vallinam migu
/// (hard doubling).
pub proof fn lemma_rule_order_pulli_before_vallinam(w1: Seq<char>, w2: Seq<char>)
    requires
        w1.len() >= 2,
        w2.len() > 0,
        tamil::spec_is_pulli(w1.last()),
        tamil::spec_is_vallinam(w2.first()),
    ensures
        spec_analyze(w1, w2).rule == SandhiRule::MellinamMigu,
{
    assert(!tamil::spec_ends_with_short_vowel(w1));
    assert(!spec_vallinam_migu_applies(w1, w2));
    assert(tamil::spec_vallinam_to_mellinam(w2.first()) is Some);
}

} // verus!
