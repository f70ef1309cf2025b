use illakiya::layout::{LayoutDef, Layers, Modifiers};

const MEI: [&str; 18] = [
    "க்", "ங்", "ச்", "ஞ்", "ட்", "ண்", "த்", "ந்", "ப்", "ம்", "ய்", "ர்", "ல்", "வ்", "ழ்",
    "ள்", "ற்", "ன்",
];

const VOWELS: [(&str, &str); 12] = [
    ("அ", ""),
    ("ஆ", "ா"),
    ("இ", "ி"),
    ("ஈ", "ீ"),
    ("உ", "ு"),
    ("ஊ", "ூ"),
    ("எ", "ெ"),
    ("ஏ", "ே"),
    ("ஐ", "ை"),
    ("ஒ", "ொ"),
    ("ஓ", "ோ"),
    ("ஔ", "ௌ"),
];

fn pair(k: &str, v: &str) -> (String, String) {
    (k.to_string(), v.to_string())
}

fn test_layout() -> LayoutDef {
    let mut combos = Vec::new();
    for mei in MEI {
        let base: String = mei.chars().take(1).collect();
        for (vowel, sign) in VOWELS {
            combos.push((mei.to_string(), vowel.to_string(), format!("{}{}", base, sign)));
        }
    }
    LayoutDef {
        name: "pm0100".to_string(),
        version: "1".to_string(),
        total_characters: 247,
        layers: Layers {
            base: vec![pair("q", "க்"), pair("u", "த்")],
            vowels: vec![pair("z", "அ"), pair("x", "இ")],
            vowels_long: vec![pair("z", "ஆ"), pair("x", "ஈ")],
            vowels_special: vec![pair("e", "ஐ")],
        },
        modifiers: Modifiers { nedil_shift: "swipe_up".to_string(), combinations: combos },
    }
}

#[test]
fn test_combine_ka() {
    let layout = test_layout();
    assert_eq!(layout.combine("க்", "அ").unwrap(), "க");
    assert_eq!(layout.combine("க்", "ஆ").unwrap(), "கா");
    assert_eq!(layout.combine("க்", "ஐ").unwrap(), "கை");
}

#[test]
fn test_combine_all_vowels_for_one_consonant() {
    let layout = test_layout();
    let vowels = ["அ", "ஆ", "இ", "ஈ", "உ", "ஊ", "எ", "ஏ", "ஐ", "ஒ", "ஓ", "ஔ"];
    for v in vowels {
        assert!(layout.combine("த்", v).is_some(), "Missing combo: த்+{}", v);
    }
}

#[test]
fn test_combine_is_pure_and_total() {
    let layout = test_layout();
    // Two identical calls agree; an absent pair yields None, never a
    // failure.
    assert_eq!(layout.combine("த்", "இ"), layout.combine("த்", "இ"));
    assert_eq!(layout.combine("த்", "zz"), None);
    assert_eq!(layout.combine("zz", "அ"), None);
}

#[test]
fn test_vowel_lookup_layers() {
    let layout = test_layout();
    assert_eq!(layout.vowel_lookup("z").unwrap(), "அ");
    assert_eq!(layout.vowel_long_lookup("z").unwrap(), "ஆ");
    assert_eq!(layout.vowel_special_lookup("e").unwrap(), "ஐ");
    assert_eq!(layout.vowel_lookup("q"), None);
}

#[test]
fn test_any_vowel_lookup_honours_length_flag() {
    let layout = test_layout();
    assert_eq!(layout.any_vowel_lookup("z", false).unwrap(), "அ");
    assert_eq!(layout.any_vowel_lookup("z", true).unwrap(), "ஆ");
    // Special vowels are only reachable on the short layer.
    assert_eq!(layout.any_vowel_lookup("e", false).unwrap(), "ஐ");
    assert_eq!(layout.any_vowel_lookup("e", true), None);
}

#[test]
fn test_base_lookup() {
    let layout = test_layout();
    assert_eq!(layout.base_lookup("q").unwrap(), "க்");
    assert_eq!(layout.base_lookup("zz"), None);
}
