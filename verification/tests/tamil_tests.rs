use illakiya::tamil;

#[test]
fn test_consonant_classes() {
    // One of each class, and the classes are disjoint.
    assert!(tamil::is_vallinam('க'));
    assert!(tamil::is_mellinam('ங'));
    assert!(tamil::is_idaiyinam('ய'));
    assert!(!tamil::is_vallinam('ங'));
    assert!(!tamil::is_mellinam('ய'));
    assert!(!tamil::is_idaiyinam('க'));
    assert!(tamil::is_mei('க') && tamil::is_mei('ங') && tamil::is_mei('ய'));
    assert!(!tamil::is_mei('அ'));
}

#[test]
fn test_vowel_classes() {
    assert!(tamil::is_kuril('அ'));
    assert!(tamil::is_nedil('ஆ'));
    assert!(!tamil::is_kuril('ஆ'));
    assert!(!tamil::is_nedil('அ'));
    assert!(tamil::is_uyir('அ') && tamil::is_uyir('ஔ'));
    assert!(!tamil::is_uyir('க'));
}

#[test]
fn test_pulli() {
    assert!(tamil::is_pulli('\u{0BCD}'));
    assert!(!tamil::is_pulli('க'));
    assert!(tamil::ends_with_pulli("தமிழ்"));
    assert!(!tamil::ends_with_pulli("தமிழ"));
    assert!(!tamil::ends_with_pulli(""));
}

#[test]
fn test_vallinam_to_mellinam_pairs() {
    assert_eq!(tamil::vallinam_to_mellinam('க'), Some('ங'));
    assert_eq!(tamil::vallinam_to_mellinam('ச'), Some('ஞ'));
    assert_eq!(tamil::vallinam_to_mellinam('ட'), Some('ண'));
    assert_eq!(tamil::vallinam_to_mellinam('த'), Some('ந'));
    assert_eq!(tamil::vallinam_to_mellinam('ப'), Some('ம'));
    assert_eq!(tamil::vallinam_to_mellinam('ற'), Some('ன'));
    assert_eq!(tamil::vallinam_to_mellinam('ங'), None);
    assert_eq!(tamil::vallinam_to_mellinam('a'), None);
}

#[test]
fn test_get_base_consonant() {
    assert_eq!(tamil::get_base_consonant('க'), Some('க'));
    assert_eq!(tamil::get_base_consonant('அ'), None);
    assert_eq!(tamil::get_base_consonant('a'), None);
}

#[test]
fn test_ends_with_short_vowel() {
    assert!(tamil::ends_with_short_vowel("அ")); // standalone short vowel
    assert!(tamil::ends_with_short_vowel("பூ")); // vowel sign
    assert!(!tamil::ends_with_short_vowel("தமிழ்")); // pulli
    assert!(!tamil::ends_with_short_vowel("நல்ல")); // bare consonant letter
    assert!(!tamil::ends_with_short_vowel("ஆ")); // standalone long vowel
    assert!(!tamil::ends_with_short_vowel(""));
}

#[test]
fn test_first_consonant() {
    assert_eq!(tamil::first_consonant("கடை"), Some('க'));
    assert_eq!(tamil::first_consonant("அம்மா"), None);
    assert_eq!(tamil::first_consonant(""), None);
}
