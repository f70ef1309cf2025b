use illakiya::dictionary::{DictEntry, Dictionary};
use illakiya::engine::KeyboardEngine;
use illakiya::layout::{LayoutDef, Layers, Modifiers};

const MEI: [&str; 18] = [
    "க்", "ங்", "ச்", "ஞ்", "ட்", "ண்", "த்", "ந்", "ப்", "ம்", "ய்", "ர்", "ல்", "வ்", "ழ்",
    "ள்", "ற்", "ன்",
];

const VOWELS: [(&str, &str); 12] = [
    ("அ", ""),
    ("ஆ", "ா"),
    ("இ", "ி"),
    ("ஈ", "ீ"),
    ("உ", "ு"),
    ("ஊ", "ூ"),
    ("எ", "ெ"),
    ("ஏ", "ே"),
    ("ஐ", "ை"),
    ("ஒ", "ொ"),
    ("ஓ", "ோ"),
    ("ஔ", "ௌ"),
];

fn pair(k: &str, v: &str) -> (String, String) {
    (k.to_string(), v.to_string())
}

fn combinations() -> Vec<(String, String, String)> {
    let mut combos = Vec::new();
    for mei in MEI {
        let base: String = mei.chars().take(1).collect();
        for (vowel, sign) in VOWELS {
            combos.push((mei.to_string(), vowel.to_string(), format!("{}{}", base, sign)));
        }
    }
    combos
}

fn test_layout() -> LayoutDef {
    LayoutDef {
        name: "pm0100".to_string(),
        version: "1".to_string(),
        total_characters: 247,
        layers: Layers {
            base: vec![
                pair("q", "க்"),
                pair("u", "த்"),
                pair("p", "ம்"),
                pair("i", "ந்"),
                pair("l", "ல்"),
                pair("n", "ன்"),
            ],
            vowels: vec![pair("z", "அ"), pair("x", "இ"), pair("c", "உ")],
            vowels_long: vec![pair("z", "ஆ"), pair("x", "ஈ"), pair("c", "ஊ")],
            vowels_special: vec![pair("e", "ஐ"), pair("o", "ஔ")],
        },
        modifiers: Modifiers { nedil_shift: "swipe_up".to_string(), combinations: combinations() },
    }
}

fn entry(tamil: &str, translit: &str, en: &str, freq: u32) -> DictEntry {
    DictEntry {
        tamil: tamil.to_string(),
        translit: translit.to_string(),
        en: en.to_string(),
        freq,
        category: String::new(),
    }
}

fn test_dict() -> Dictionary {
    let mut entries = vec![
        entry("தமிழ்", "tamil", "Tamil", 95),
        entry("நான்", "naan", "I", 90),
        entry("வணக்கம்", "vanakkam", "hello", 20),
    ];
    for i in 0..120 {
        entries.push(entry(&format!("w{}", i), &format!("w{}", i), "filler", 5));
    }
    Dictionary::new(entries)
}

fn test_engine() -> KeyboardEngine {
    KeyboardEngine::new(test_layout(), test_dict())
}

#[test]
fn test_vowel_standalone() {
    let mut eng = test_engine();
    assert_eq!(eng.process_input("z"), "அ");
}

#[test]
fn test_consonant_then_vowel() {
    let mut eng = test_engine();
    assert_eq!(eng.process_input("q"), "");
    assert_eq!(eng.process_input("z"), "க");
}

#[test]
fn test_long_vowel_nedil() {
    let mut eng = test_engine();
    eng.process_input("q");
    eng.process_input("nedil");
    assert_eq!(eng.process_input("z"), "கா");
}

#[test]
fn test_suggestions() {
    let mut eng = test_engine();
    // Type "தமி" -> should suggest "தமிழ்"
    eng.process_input("u"); // த் pending
    eng.process_input("z"); // த
    eng.process_input("p"); // ம் pending
    eng.process_input("x"); // மி
    let suggestions = eng.get_suggestions(5);
    assert!(
        suggestions.iter().any(|s| s.contains("தமிழ")),
        "Expected suggestion containing 'தமிழ', got: {:?}",
        suggestions
    );
}

#[test]
fn test_word_boundary_tracking() {
    let mut eng = test_engine();
    eng.process_input("z"); // அ
    eng.process_input(" "); // Space -> word boundary
    let words = eng.get_words();
    assert_eq!(words.len(), 1);
    assert_eq!(words[0], "அ");
    assert!(eng.get_current_word().is_empty());
}

#[test]
fn test_dictionary_lookup() {
    let eng = test_engine();
    assert!(eng.is_valid_word("நான்"));
    assert!(!eng.is_valid_word("abcdef"));
}

#[test]
fn test_current_word_tracking() {
    let mut eng = test_engine();
    eng.process_input("u"); // த் pending
    eng.process_input("z"); // த committed
    assert_eq!(eng.get_current_word(), "த");
    eng.process_input("p"); // ம் pending
    assert_eq!(eng.get_current_word(), "தம்");
}

#[test]
fn test_dictionary_size() {
    let eng = test_engine();
    assert!(eng.dictionary_size() >= 100);
}

#[test]
fn test_accept_suggestion() {
    let mut eng = test_engine();
    eng.process_input("u"); // த் pending
    eng.process_input("z"); // த
    let result = eng.accept_suggestion("தமிழ்");
    assert_eq!(result, "தமிழ்");
    assert_eq!(eng.get_current_word(), "தமிழ்");
}

#[test]
fn test_full_sentence() {
    let mut eng = test_engine();
    eng.process_input("i"); // ந் pending
    eng.process_input("z"); // composes to ந
    let buf = eng.get_buffer();
    assert!(!buf.is_empty());
}

#[test]
fn test_nedil_is_consumed_by_any_event() {
    let mut eng = test_engine();
    eng.process_input("nedil");
    assert!(eng.is_nedil_active());
    eng.process_input("q"); // a consonant consumes the one-shot modifier
    assert!(!eng.is_nedil_active());
    assert_eq!(eng.process_input("z"), "க"); // short vowel, not long
}

#[test]
fn test_uncomposable_pair_concatenates() {
    let mut eng = test_engine();
    // The special vowel ஐ maps through the table too; use a raw
    // passthrough token instead to leave the pending consonant alone.
    eng.process_input("q"); // க் pending
    let out = eng.process_input("?"); // unmapped token: flush + passthrough
    assert_eq!(out, "க்?");
    assert_eq!(eng.get_current_word(), "க்?");
}

#[test]
fn test_vowel_without_combination_concatenates() {
    // A layout whose composition table lacks the pair: the pending
    // consonant and the vowel are committed literally.
    let layout = LayoutDef {
        name: "tiny".to_string(),
        version: "1".to_string(),
        total_characters: 2,
        layers: Layers {
            base: vec![pair("q", "க்")],
            vowels: vec![pair("z", "அ")],
            vowels_long: vec![],
            vowels_special: vec![],
        },
        modifiers: Modifiers { nedil_shift: "swipe_up".to_string(), combinations: vec![] },
    };
    let mut eng = KeyboardEngine::new(layout, test_dict());
    assert_eq!(eng.process_input("q"), "");
    assert_eq!(eng.process_input("z"), "க்அ");
    assert_eq!(eng.get_current_word(), "க்அ");
}

#[test]
fn test_backspace_discards_pending_first() {
    let mut eng = test_engine();
    eng.process_input("z"); // அ committed
    eng.process_input("q"); // க் pending
    eng.process_input("backspace"); // discards the pending consonant only
    assert_eq!(eng.get_buffer(), "அ");
    eng.process_input("backspace"); // now removes the last character
    assert_eq!(eng.get_buffer(), "");
}

#[test]
fn test_enter_commits_word_without_recency() {
    let mut eng = test_engine();
    eng.process_input("z");
    eng.process_input("enter");
    let words = eng.get_words();
    assert_eq!(words.len(), 1);
    assert_eq!(words[0], "அ");
    assert!(eng.get_buffer().ends_with('\n'));
}

#[test]
fn test_clear_resets_state() {
    let mut eng = test_engine();
    eng.process_input("z");
    eng.process_input(" ");
    eng.process_input("q");
    assert_eq!(eng.process_input("clear"), "");
    assert_eq!(eng.get_buffer(), "");
    assert_eq!(eng.get_current_word(), "");
    assert_eq!(eng.get_words().len(), 0);
}

#[test]
fn test_sandhi_suggestion_for_hard_doubling() {
    let mut eng = test_engine();
    // Commit "பூ", then type "கொடி" as the current word via passthrough
    // characters, and ask for the join.
    for c in ["ப", "ூ"] {
        eng.process_input(c);
    }
    eng.process_input(" ");
    for c in ["க", "ொ", "ட", "ி"] {
        eng.process_input(c);
    }
    assert_eq!(eng.get_sandhi_suggestion(), Some("பூக்கொடி".to_string()));
}

#[test]
fn test_no_sandhi_suggestion_for_natural_join() {
    let mut eng = test_engine();
    eng.process_input("z"); // அ
    eng.process_input(" ");
    eng.process_input("p"); // ம் pending
    eng.process_input("z"); // ம
    // அ + ம joins naturally; nothing worth surfacing.
    assert_eq!(eng.get_sandhi_suggestion(), None);
}

#[test]
fn test_get_pending() {
    let mut eng = test_engine();
    assert_eq!(eng.get_pending(), None);
    eng.process_input("q");
    assert_eq!(eng.get_pending(), Some("க்".to_string()));
}
