//! The keyboard state machine: sequences key events through the layout
//! resolver, the dictionary and the sandhi engine, maintaining the
//! committed buffer, the pending consonant, the one-shot long-vowel
//! modifier, the in-progress word and the word history.

use crate::dictionary::Dictionary;
use crate::dictionary::DictEntry;
use crate::dictionary::spec_first_match;
use crate::dictionary::spec_record_usage;
use crate::dictionary::spec_suggest;
use crate::dictionary::views_of;
use crate::layout::LayoutDef;
use crate::sandhi::AdhanSandhi;
use crate::sandhi::SandhiCorrection;
use crate::sandhi::SandhiRule;
use crate::sandhi::spec_analyze;
use crate::ranking::clone_string;
use crate::text::push_char;
use crate::text::str_eq;
use vstd::prelude::*;
use vstd::string::StrSliceExecFns;
use vstd::string::StringExecFns;

verus! {

/// A suggestion offered to the embedding application, tagged with where
/// it came from.
#[derive(Debug)]
pub struct Suggestion {
    pub text: String,
    pub source: SuggestionSource,
}

#[derive(Debug, Clone, PartialEq, Eq, Structural)]
pub enum SuggestionSource {
    Dictionary,
    Sandhi,
    Recent,
}

/// The core keyboard engine.
pub struct KeyboardEngine {
    layout: LayoutDef,
    dict: Dictionary,
    sandhi: AdhanSandhi,
    buffer: String,
    pending_consonant: Option<String>,
    nedil_active: bool,
    words: Vec<String>,
    current_word: String,
}

/// The mathematical state of the engine: everything a key event may
/// change.
#[verifier::ext_equal]
pub struct EngineModel {
    pub buffer: Seq<char>,
    pub pending: Option<Seq<char>>,
    pub nedil: bool,
    pub words: Seq<Seq<char>>,
    pub current: Seq<char>,
    pub recents: Seq<Seq<char>>,
}

/// The outcome of one key event: the successor state and the text to
/// commit.
#[verifier::ext_equal]
pub struct StepResult {
    pub state: EngineModel,
    pub out: Seq<char>,
}

/// The pending consonant as a sequence: empty when none is pending.
pub open spec fn spec_opt_seq(p: Option<Seq<char>>) -> Seq<char> {
    match p {
        Some(s) => s,
        None => Seq::<char>::empty(),
    }
}

/// A vowel event. A pending consonant is composed with the vowel when
/// the table has an entry, else both are committed literally; with no
/// pending consonant the vowel alone is committed.
pub open spec fn spec_vowel_step(layout: LayoutDef, m: EngineModel, v: Seq<char>) -> StepResult {
    match m.pending {
        Some(c) => match layout.spec_combine(c, v) {
            Some(comb) => StepResult {
                state: EngineModel {
                    buffer: m.buffer + comb,
                    pending: None,
                    current: m.current + comb,
                    ..m
                },
                out: comb,
            },
            None => StepResult {
                state: EngineModel {
                    buffer: m.buffer + c + v,
                    pending: None,
                    current: m.current + c + v,
                    ..m
                },
                out: c + v,
            },
        },
        None => StepResult {
            state: EngineModel { buffer: m.buffer + v, current: m.current + v, ..m },
            out: v,
        },
    }
}

/// A consonant event: any previously pending consonant is flushed, and
/// the new one becomes pending without being committed yet.
pub open spec fn spec_consonant_step(m: EngineModel, c: Seq<char>) -> StepResult {
    let fl = spec_opt_seq(m.pending);
    StepResult {
        state: EngineModel {
            buffer: m.buffer + fl,
            pending: Some(c),
            current: m.current + fl,
            ..m
        },
        out: fl,
    }
}

/// A space: flush, commit the current word to the history and the
/// recency log, and append the delimiter.
pub open spec fn spec_space_step(m: EngineModel) -> StepResult {
    let fl = spec_opt_seq(m.pending);
    let c1 = m.current + fl;
    StepResult {
        state: EngineModel {
            buffer: (m.buffer + fl).push(' '),
            pending: None,
            words: if c1.len() > 0 {
                m.words.push(c1)
            } else {
                m.words
            },
            current: Seq::<char>::empty(),
            recents: if c1.len() > 0 {
                spec_record_usage(m.recents, c1)
            } else {
                m.recents
            },
            ..m
        },
        out: fl.push(' '),
    }
}

/// A line break: like a space, but the recency log is left alone and a
/// newline is appended.
pub open spec fn spec_enter_step(m: EngineModel) -> StepResult {
    let fl = spec_opt_seq(m.pending);
    let c1 = m.current + fl;
    StepResult {
        state: EngineModel {
            buffer: (m.buffer + fl).push('\n'),
            pending: None,
            words: if c1.len() > 0 {
                m.words.push(c1)
            } else {
                m.words
            },
            current: Seq::<char>::empty(),
            ..m
        },
        out: fl.push('\n'),
    }
}

/// A backspace: discard the pending consonant if there is one, else
/// remove the last character of the current word and the buffer, else of
/// the buffer alone. The returned text is a fixed backspace signal.
pub open spec fn spec_backspace_step(m: EngineModel) -> StepResult {
    let state = if m.pending is Some {
        EngineModel { pending: None, ..m }
    } else if m.current.len() > 0 {
        EngineModel {
            current: m.current.drop_last(),
            buffer: if m.buffer.len() > 0 {
                m.buffer.drop_last()
            } else {
                m.buffer
            },
            ..m
        }
    } else if m.buffer.len() > 0 {
        EngineModel { buffer: m.buffer.drop_last(), ..m }
    } else {
        m
    };
    StepResult { state, out: "\u{8}"@ }
}

/// Any unrecognised token: flush the pending consonant, then pass the
/// token through verbatim.
pub open spec fn spec_passthrough_step(m: EngineModel, key: Seq<char>) -> StepResult {
    let fl = spec_opt_seq(m.pending);
    StepResult {
        state: EngineModel {
            buffer: m.buffer + fl + key,
            pending: None,
            current: m.current + fl + key,
            ..m
        },
        out: fl + key,
    }
}

/// The state every field returns to on `clear`; the dictionary's
/// recency log is not part of the engine state proper and survives.
pub open spec fn spec_reset_state(m: EngineModel) -> EngineModel {
    EngineModel {
        buffer: Seq::<char>::empty(),
        pending: None,
        nedil: false,
        words: Seq::<Seq<char>>::empty(),
        current: Seq::<char>::empty(),
        recents: m.recents,
    }
}

/// A control or passthrough event, dispatched on the token.
pub open spec fn spec_special_step(m: EngineModel, key: Seq<char>) -> StepResult {
    if key == " "@ || key == "space"@ {
        spec_space_step(m)
    } else if key == "backspace"@ {
        spec_backspace_step(m)
    } else if key == "enter"@ {
        spec_enter_step(m)
    } else if key == "nedil"@ || key == "swipe_up"@ {
        StepResult { state: EngineModel { nedil: true, ..m }, out: Seq::<char>::empty() }
    } else if key == "clear"@ {
        StepResult { state: spec_reset_state(m), out: Seq::<char>::empty() }
    } else {
        spec_passthrough_step(m, key)
    }
}

/// One full key event: the token is classified as vowel, consonant or
/// special, in that precedence; the vowel lookup honours the one-shot
/// long-vowel modifier, which every event consumes.
pub open spec fn spec_step(layout: LayoutDef, m: EngineModel, key: Seq<char>) -> StepResult {
    let vowel = layout.spec_any_vowel_lookup(key, m.nedil);
    let m0 = EngineModel { nedil: false, ..m };
    match vowel {
        Some(v) => spec_vowel_step(layout, m0, v),
        None => match layout.spec_base_lookup(key) {
            Some(c) => spec_consonant_step(m0, c),
            None => spec_special_step(m0, key),
        },
    }
}

/// The sandhi suggestion policy: only a specific rule, above the
/// natural-join confidence, is worth surfacing mid-word.
pub open spec fn spec_sandhi_suggestion(m: EngineModel) -> Option<Seq<char>> {
    if m.words.len() == 0 || m.current.len() == 0 {
        None
    } else {
        let a = spec_analyze(m.words.last(), m.current);
        if a.rule != SandhiRule::IyalbuPunarchi && a.rule != SandhiRule::NoRule && a.confidence
            > 60 {
            Some(a.output)
        } else {
            None
        }
    }
}

impl KeyboardEngine {
    /// The engine state a key event may change.
    pub closed spec fn model(&self) -> EngineModel {
        EngineModel {
            buffer: self.buffer@,
            pending: match self.pending_consonant {
                Some(p) => Some(p@),
                None => None,
            },
            nedil: self.nedil_active,
            words: views_of(self.words@),
            current: self.current_word@,
            recents: self.dict.spec_recents(),
        }
    }

    /// The immutable layout.
    pub closed spec fn spec_layout(&self) -> LayoutDef {
        self.layout
    }

    /// The immutable dictionary entry list.
    pub closed spec fn spec_dict_entries(&self) -> Seq<DictEntry> {
        self.dict.spec_entries()
    }

    /// The sandhi correction log.
    pub closed spec fn spec_corrections(&self) -> Seq<SandhiCorrection> {
        self.sandhi.spec_corrections()
    }

    /// A fresh engine over a loaded layout and dictionary.
    pub fn new(layout: LayoutDef, dict: Dictionary) -> (e: KeyboardEngine)
        ensures
            e.spec_layout() == layout,
            e.spec_dict_entries() == dict.spec_entries(),
            e.spec_corrections() == Seq::<SandhiCorrection>::empty(),
            e.model() == (EngineModel {
                buffer: Seq::<char>::empty(),
                pending: None,
                nedil: false,
                words: Seq::<Seq<char>>::empty(),
                current: Seq::<char>::empty(),
                recents: dict.spec_recents(),
            }),
    {
        let e = KeyboardEngine {
            layout,
            dict,
            sandhi: AdhanSandhi::new(),
            buffer: String::new(),
            pending_consonant: None,
            nedil_active: false,
            words: Vec::new(),
            current_word: String::new(),
        };
        assert(views_of(e.words@) =~= Seq::<Seq<char>>::empty());
        assert(e.model() =~= (EngineModel {
            buffer: Seq::<char>::empty(),
            pending: None,
            nedil: false,
            words: Seq::<Seq<char>>::empty(),
            current: Seq::<char>::empty(),
            recents: e.dict.spec_recents(),
        }));
        e
    }

    /// Toggle the one-shot long-vowel modifier.
    pub fn toggle_nedil(&mut self)
        ensures
            final(self).model() == (EngineModel {
                nedil: !old(self).model().nedil,
                ..old(self).model()
            }),
            final(self).spec_layout() == old(self).spec_layout(),
            final(self).spec_dict_entries() == old(self).spec_dict_entries(),
            final(self).spec_corrections() == old(self).spec_corrections(),
    {
        self.nedil_active = !self.nedil_active;
        assert(self.model() =~= (EngineModel { nedil: self.nedil_active, ..old(self).model() }));
    }

    /// Take the pending consonant out, committing it to the buffer and
    /// the current word.
    fn flush_pending(&mut self) -> (out: String)
        ensures
            final(self).model() == (EngineModel {
                buffer: old(self).model().buffer + spec_opt_seq(old(self).model().pending),
                pending: None,
                current: old(self).model().current + spec_opt_seq(old(self).model().pending),
                ..old(self).model()
            }),
            out@ == spec_opt_seq(old(self).model().pending),
            final(self).spec_layout() == old(self).spec_layout(),
            final(self).spec_dict_entries() == old(self).spec_dict_entries(),
            final(self).spec_corrections() == old(self).spec_corrections(),
    {
        let pending = match &self.pending_consonant {
            Some(p) => Some(clone_string(p)),
            None => None,
        };
        self.pending_consonant = None;
        match pending {
            Some(p) => {
                self.buffer.append(p.as_str());
                self.current_word.append(p.as_str());
                assert(self.model() =~= (EngineModel {
                    buffer: old(self).model().buffer + spec_opt_seq(old(self).model().pending),
                    pending: None,
                    current: old(self).model().current + spec_opt_seq(
                        old(self).model().pending,
                    ),
                    ..old(self).model()
                }));
                p
            },
            None => {
                assert(old(self).model().buffer + spec_opt_seq(old(self).model().pending)
                    =~= old(self).model().buffer);
                assert(old(self).model().current + spec_opt_seq(old(self).model().pending)
                    =~= old(self).model().current);
                assert(self.model() =~= (EngineModel {
                    buffer: old(self).model().buffer + spec_opt_seq(old(self).model().pending),
                    pending: None,
                    current: old(self).model().current + spec_opt_seq(
                        old(self).model().pending,
                    ),
                    ..old(self).model()
                }));
                String::new()
            },
        }
    }

    /// Handle a resolved vowel grapheme.
    fn handle_vowel(&mut self, vowel: &str) -> (out: String)
        ensures
            final(self).model() == spec_vowel_step(
                old(self).spec_layout(),
                old(self).model(),
                vowel@,
            ).state,
            out@ == spec_vowel_step(old(self).spec_layout(), old(self).model(), vowel@).out,
            final(self).spec_layout() == old(self).spec_layout(),
            final(self).spec_dict_entries() == old(self).spec_dict_entries(),
            final(self).spec_corrections() == old(self).spec_corrections(),
    {
        let ghost m = old(self).model();
        let pending = match &self.pending_consonant {
            Some(p) => Some(clone_string(p)),
            None => None,
        };
        self.pending_consonant = None;
        match pending {
            Some(c) => {
                match self.layout.combine(c.as_str(), vowel) {
                    Some(comb) => {
                        self.buffer.append(comb.as_str());
                        self.current_word.append(comb.as_str());
                        assert(self.model() =~= spec_vowel_step(
                            self.spec_layout(),
                            m,
                            vowel@,
                        ).state);
                        comb
                    },
                    None => {
                        self.buffer.append(c.as_str());
                        self.buffer.append(vowel);
                        self.current_word.append(c.as_str());
                        self.current_word.append(vowel);
                        let out = c.concat(vowel);
                        assert(self.model() =~= spec_vowel_step(
                            self.spec_layout(),
                            m,
                            vowel@,
                        ).state);
                        out
                    },
                }
            },
            None => {
                self.buffer.append(vowel);
                self.current_word.append(vowel);
                assert(self.model() =~= spec_vowel_step(self.spec_layout(), m, vowel@).state);
                String::from_str(vowel)
            },
        }
    }

    /// Handle a resolved consonant grapheme: flush any pending one and
    /// make the new one pending.
    fn handle_consonant(&mut self, consonant: &str) -> (out: String)
        ensures
            final(self).model() == spec_consonant_step(old(self).model(), consonant@).state,
            out@ == spec_consonant_step(old(self).model(), consonant@).out,
            final(self).spec_layout() == old(self).spec_layout(),
            final(self).spec_dict_entries() == old(self).spec_dict_entries(),
            final(self).spec_corrections() == old(self).spec_corrections(),
    {
        let ghost m = old(self).model();
        let out = self.flush_pending();
        self.pending_consonant = Some(String::from_str(consonant));
        assert(self.model() =~= spec_consonant_step(m, consonant@).state);
        out
    }

    /// Handle a control token or a passthrough character.
    fn handle_special(&mut self, key: &str) -> (out: String)
        ensures
            final(self).model() == spec_special_step(old(self).model(), key@).state,
            out@ == spec_special_step(old(self).model(), key@).out,
            final(self).spec_layout() == old(self).spec_layout(),
            final(self).spec_dict_entries() == old(self).spec_dict_entries(),
            final(self).spec_corrections() == old(self).spec_corrections(),
    {
        let ghost m = old(self).model();
        if str_eq(key, " ") || str_eq(key, "space") {
            let mut out = self.flush_pending();
            if !self.current_word.as_str().is_empty() {
                self.dict.record_usage(self.current_word.as_str());
                self.words.push(clone_string(&self.current_word));
                self.current_word = String::new();
                assert(views_of(self.words@) =~= views_of(old(self).words@).push(
                    old(self).current_word@ + spec_opt_seq(m.pending),
                ));
            }
            push_char(&mut out, ' ');
            push_char(&mut self.buffer, ' ');
            assert(self.model() =~= spec_space_step(m).state);
            assert(out@ =~= spec_space_step(m).out);
            out
        } else if str_eq(key, "backspace") {
            if self.pending_consonant.is_some() {
                self.pending_consonant = None;
                assert(self.model() =~= spec_backspace_step(m).state);
            } else {
                let cn = self.current_word.unicode_len();
                if cn > 0 {
                    let shorter = String::from_str(self.current_word.substring_char(0, cn - 1));
                    self.current_word = shorter;
                    let bn = self.buffer.unicode_len();
                    if bn > 0 {
                        let shorter_buf = String::from_str(self.buffer.substring_char(0, bn - 1));
                        self.buffer = shorter_buf;
                    }
                    assert(self.current_word@ =~= m.current.drop_last());
                    assert(m.buffer.len() > 0 ==> self.buffer@ =~= m.buffer.drop_last());
                    assert(self.model() =~= spec_backspace_step(m).state);
                } else {
                    let bn = self.buffer.unicode_len();
                    if bn > 0 {
                        let shorter_buf = String::from_str(self.buffer.substring_char(0, bn - 1));
                        self.buffer = shorter_buf;
                        assert(self.buffer@ =~= m.buffer.drop_last());
                    }
                    assert(self.model() =~= spec_backspace_step(m).state);
                }
            }
            String::from_str("\u{8}")
        } else if str_eq(key, "enter") {
            let mut out = self.flush_pending();
            if !self.current_word.as_str().is_empty() {
                self.words.push(clone_string(&self.current_word));
                self.current_word = String::new();
                assert(views_of(self.words@) =~= views_of(old(self).words@).push(
                    old(self).current_word@ + spec_opt_seq(m.pending),
                ));
            }
            push_char(&mut out, '\n');
            push_char(&mut self.buffer, '\n');
            assert(self.model() =~= spec_enter_step(m).state);
            assert(out@ =~= spec_enter_step(m).out);
            out
        } else if str_eq(key, "nedil") || str_eq(key, "swipe_up") {
            self.nedil_active = true;
            assert(self.model() =~= (EngineModel { nedil: true, ..m }));
            String::new()
        } else if str_eq(key, "clear") {
            self.reset();
            String::new()
        } else {
            let mut out = self.flush_pending();
            self.buffer.append(key);
            self.current_word.append(key);
            out.append(key);
            assert(self.model() =~= spec_passthrough_step(m, key@).state);
            assert(out@ =~= spec_passthrough_step(m, key@).out);
            out
        }
    }

    /// Process one key token and return the text to commit for it.
    pub fn process_input(&mut self, key: &str) -> (out: String)
        ensures
            final(self).model() == spec_step(old(self).spec_layout(), old(self).model(), key@).state,
            out@ == spec_step(old(self).spec_layout(), old(self).model(), key@).out,
            final(self).spec_layout() == old(self).spec_layout(),
            final(self).spec_dict_entries() == old(self).spec_dict_entries(),
            final(self).spec_corrections() == old(self).spec_corrections(),
    {
        let ghost m = old(self).model();
        let vowel = self.layout.any_vowel_lookup(key, self.nedil_active);
        if self.nedil_active {
            self.nedil_active = false;
        }
        assert(self.model() =~= (EngineModel { nedil: false, ..m }));
        match vowel {
            Some(v) => self.handle_vowel(v.as_str()),
            None => {
                match self.layout.base_lookup(key) {
                    Some(c) => self.handle_consonant(c.as_str()),
                    None => self.handle_special(key),
                }
            },
        }
    }

    /// Reset the engine state; the dictionary and the correction log are
    /// kept.
    pub fn reset(&mut self)
        ensures
            final(self).model() == spec_reset_state(old(self).model()),
            final(self).spec_layout() == old(self).spec_layout(),
            final(self).spec_dict_entries() == old(self).spec_dict_entries(),
            final(self).spec_corrections() == old(self).spec_corrections(),
    {
        self.buffer = String::new();
        self.pending_consonant = None;
        self.nedil_active = false;
        self.words = Vec::new();
        self.current_word = String::new();
        assert(views_of(self.words@) =~= Seq::<Seq<char>>::empty());
        assert(self.model() =~= spec_reset_state(old(self).model()));
    }

    /// Ranked completions for the current input: the search prefix is
    /// the current word followed by the pending consonant, and an empty
    /// current word yields no suggestions.
    pub fn get_suggestions(&self, limit: u32) -> (r: Vec<String>)
        ensures
            ({
                let m = self.model();
                (m.current.len() == 0 ==> r@.len() == 0) && (m.current.len() > 0
                    ==> views_of(r@) == spec_suggest(
                    self.spec_dict_entries(),
                    m.recents,
                    m.current + spec_opt_seq(m.pending),
                    limit as int,
                ))
            }),
            r@.len() <= limit,
    {
        if self.current_word.as_str().is_empty() {
            let r = Vec::<String>::new();
            return r;
        }
        let mut prefix = clone_string(&self.current_word);
        match &self.pending_consonant {
            Some(p) => {
                prefix.append(p.as_str());
            },
            None => {
                assert(prefix@ =~= self.model().current + spec_opt_seq(self.model().pending));
            },
        }
        self.dict.suggest(prefix.as_str(), limit as usize)
    }

    /// A sandhi suggestion for the boundary between the last committed
    /// word and the current word: only a specific rule with confidence
    /// above the natural-join score is surfaced.
    pub fn get_sandhi_suggestion(&self) -> (r: Option<String>)
        ensures
            r matches Some(s) ==> spec_sandhi_suggestion(self.model()) matches Some(o) && s@ == o,
            r is None ==> spec_sandhi_suggestion(self.model()) is None,
    {
        let n = self.words.len();
        if n == 0 {
            return None;
        }
        if self.current_word.as_str().is_empty() {
            return None;
        }
        let last_word = &self.words[n - 1];
        assert(last_word@ == self.model().words.last());
        let result = self.sandhi.analyze(last_word.as_str(), self.current_word.as_str());
        let specific = match result.rule {
            SandhiRule::IyalbuPunarchi => false,
            SandhiRule::NoRule => false,
            _ => true,
        };
        if specific && result.confidence > 60 {
            Some(result.output)
        } else {
            None
        }
    }

    /// Accept a suggestion: the current word's characters are removed
    /// from the end of the buffer, the suggestion takes their place and
    /// becomes the current word, and its usage is recorded. The caller
    /// must have no pending consonant, whose length the truncation would
    /// not account for.
    pub fn accept_suggestion(&mut self, suggestion: &str) -> (out: String)
        requires
            old(self).model().pending is None,
        ensures
            ({
                let m = old(self).model();
                let kept = if m.buffer.len() >= m.current.len() {
                    m.buffer.take(m.buffer.len() - m.current.len())
                } else {
                    m.buffer
                };
                final(self).model() == (EngineModel {
                    buffer: kept + suggestion@,
                    pending: None,
                    current: suggestion@,
                    recents: spec_record_usage(m.recents, suggestion@),
                    ..m
                })
            }),
            out@ == suggestion@,
            final(self).spec_layout() == old(self).spec_layout(),
            final(self).spec_dict_entries() == old(self).spec_dict_entries(),
            final(self).spec_corrections() == old(self).spec_corrections(),
    {
        let ghost m = old(self).model();
        let bn = self.buffer.unicode_len();
        let cn = self.current_word.unicode_len();
        if bn >= cn {
            let kept = String::from_str(self.buffer.substring_char(0, bn - cn));
            self.buffer = kept;
        }
        self.buffer.append(suggestion);
        self.current_word = String::from_str(suggestion);
        self.pending_consonant = None;
        self.dict.record_usage(suggestion);
        assert(self.model() =~= (EngineModel {
            buffer: (if m.buffer.len() >= m.current.len() {
                m.buffer.take(m.buffer.len() - m.current.len())
            } else {
                m.buffer
            }) + suggestion@,
            pending: None,
            current: suggestion@,
            recents: spec_record_usage(m.recents, suggestion@),
            ..m
        }));
        String::from_str(suggestion)
    }

    /// Whether the word has a dictionary entry.
    pub fn is_valid_word(&self, word: &str) -> (r: bool)
        ensures
            r == (spec_first_match(self.spec_dict_entries(), word@) is Some),
    {
        self.dict.contains(word)
    }

    /// The translation of the current word, if it is a dictionary word.
    pub fn translate_current(&self) -> (r: Option<String>)
        ensures
            self.model().current.len() == 0 ==> r is None,
            r matches Some(s) ==> spec_first_match(
                self.spec_dict_entries(),
                self.model().current,
            ) matches Some(e) && s@ == e.en@,
    {
        if self.current_word.as_str().is_empty() {
            return None;
        }
        self.dict.translate(self.current_word.as_str())
    }

    /// The committed buffer with the pending consonant shown at its end.
    pub fn get_buffer(&self) -> (r: String)
        ensures
            r@ == self.model().buffer + spec_opt_seq(self.model().pending),
    {
        let mut buf = clone_string(&self.buffer);
        match &self.pending_consonant {
            Some(p) => {
                buf.append(p.as_str());
            },
            None => {
                assert(buf@ =~= self.model().buffer + spec_opt_seq(self.model().pending));
            },
        }
        buf
    }

    /// The pending consonant, for the caller to underline.
    pub fn get_pending(&self) -> (r: Option<String>)
        ensures
            r matches Some(p) ==> self.model().pending matches Some(s) && p@ == s,
            r is None <==> self.model().pending is None,
    {
        match &self.pending_consonant {
            Some(p) => Some(clone_string(p)),
            None => None,
        }
    }

    /// The in-progress word, pending consonant included.
    pub fn get_current_word(&self) -> (r: String)
        ensures
            r@ == self.model().current + spec_opt_seq(self.model().pending),
    {
        let mut word = clone_string(&self.current_word);
        match &self.pending_consonant {
            Some(p) => {
                word.append(p.as_str());
            },
            None => {
                assert(word@ =~= self.model().current + spec_opt_seq(self.model().pending));
            },
        }
        word
    }

    /// The committed word history, oldest first.
    pub fn get_words(&self) -> (r: Vec<String>)
        ensures
            views_of(r@) == self.model().words,
    {
        let n = self.words.len();
        let mut out: Vec<String> = Vec::new();
        let mut i: usize = 0;
        while i < n
            invariant
                n == self.words@.len(),
                i <= n,
                out@.len() == i,
                forall|j: int| 0 <= j < i ==> #[trigger] out@[j]@ == self.words@[j]@,
            decreases n - i,
        {
            out.push(clone_string(&self.words[i]));
            i = i + 1;
        }
        assert(views_of(out@) =~= views_of(self.words@));
        out
    }

    /// Whether the one-shot long-vowel modifier is set.
    pub fn is_nedil_active(&self) -> (r: bool)
        ensures
            r == self.model().nedil,
    {
        self.nedil_active
    }

    /// The dictionary's word count, saturating at the largest
    /// reportable count.
    pub fn dictionary_size(&self) -> (r: u32)
        ensures
            r as nat == vstd::math::min(self.spec_dict_entries().len() as int, u32::MAX as int),
    {
        self.dict.word_count()
    }
}

} // verus!
