use illakiya::dictionary::{DictEntry, Dictionary};

fn entry(tamil: &str, translit: &str, en: &str, freq: u32) -> DictEntry {
    DictEntry {
        tamil: tamil.to_string(),
        translit: translit.to_string(),
        en: en.to_string(),
        freq,
        category: String::new(),
    }
}

fn test_entries() -> Vec<DictEntry> {
    let mut entries = vec![
        entry("தமிழ்", "tamil", "Tamil", 95),
        entry("நான்", "naan", "I", 90),
        entry("வணக்கம்", "vanakkam", "hello", 20),
        entry("வா", "vaa", "come", 60),
        entry("வீடு", "veedu", "house", 55),
        entry("தமிழன்", "tamilan", "Tamilian", 40),
        entry("தமிழகம்", "tamilakam", "Tamil land", 30),
        entry("அம்மா", "amma", "mother", 85),
        entry("மண்", "man", "soil", 45),
        entry("பூ", "poo", "flower", 50),
    ];
    for i in 0..120 {
        entries.push(entry(&format!("w{}", i), &format!("w{}", i), "filler", 5));
    }
    entries
}

fn test_dict() -> Dictionary {
    Dictionary::new(test_entries())
}

#[test]
fn test_load_dictionary() {
    let dict = test_dict();
    assert!(dict.word_count() > 100);
}

#[test]
fn test_exact_lookup() {
    let dict = test_dict();
    let entry = dict.lookup("தமிழ்");
    assert!(entry.is_some());
    assert_eq!(entry.unwrap().en, "Tamil");
}

#[test]
fn test_contains() {
    let dict = test_dict();
    assert!(dict.contains("நான்"));
    assert!(!dict.contains("xyzzyx"));
}

#[test]
fn test_prefix_suggest() {
    let dict = test_dict();
    let suggestions = dict.suggest("தமி", 5);
    assert!(!suggestions.is_empty());
    assert!(suggestions.iter().any(|s| s == "தமிழ்"));
}

#[test]
fn test_empty_prefix() {
    let dict = test_dict();
    let suggestions = dict.suggest("", 5);
    assert!(suggestions.is_empty());
}

#[test]
fn test_no_match() {
    let dict = test_dict();
    let suggestions = dict.suggest("zzz", 5);
    assert!(suggestions.is_empty());
}

#[test]
fn test_recency_boost() {
    let mut dict = test_dict();
    let _before = dict.suggest("வ", 3);
    dict.record_usage("வணக்கம்");
    let after = dict.suggest("வ", 3);
    // வணக்கம் should be boosted towards top
    if after.contains(&"வணக்கம்".to_string()) {
        let pos = after.iter().position(|w| w == "வணக்கம்").unwrap();
        assert!(pos <= 2); // Should be in top 3
    }
}

#[test]
fn test_translate() {
    let dict = test_dict();
    assert_eq!(dict.translate("நான்"), Some("I".to_string()));
}

#[test]
fn test_transliterate() {
    let dict = test_dict();
    assert_eq!(dict.transliterate("நான்"), Some("naan".to_string()));
}

#[test]
fn test_first_inserted_wins_on_duplicates() {
    let mut entries = test_entries();
    entries.push(entry("தமிழ்", "tamil2", "Tamil again", 99));
    let dict = Dictionary::new(entries);
    assert_eq!(dict.translate("தமிழ்"), Some("Tamil".to_string()));
}

#[test]
fn test_suggest_respects_limit() {
    let dict = test_dict();
    let suggestions = dict.suggest("w", 7);
    assert_eq!(suggestions.len(), 7);
}

#[test]
fn test_suggest_orders_by_frequency() {
    let dict = test_dict();
    let suggestions = dict.suggest("வ", 3);
    // வா (60) ahead of வீடு (55) ahead of வணக்கம் (20)
    assert_eq!(
        suggestions,
        vec!["வா".to_string(), "வீடு".to_string(), "வணக்கம்".to_string()]
    );
}

#[test]
fn test_recency_boost_changes_order() {
    let mut dict = test_dict();
    assert_eq!(dict.suggest("வ", 1)[0], "வா");
    dict.record_usage("வணக்கம்");
    // 20 + 50 = 70 beats வா's 60.
    assert_eq!(dict.suggest("வ", 1)[0], "வணக்கம்");
}

#[test]
fn test_recency_eviction_after_51_words() {
    let mut dict = test_dict();
    dict.record_usage("வணக்கம்");
    assert_eq!(dict.suggest("வ", 1)[0], "வணக்கம்");
    // 50 more distinct words push வணக்கம் out of the capacity-50 log.
    for i in 0..50 {
        dict.record_usage(&format!("extra{}", i));
    }
    assert_eq!(dict.suggest("வ", 1)[0], "வா");
}

#[test]
fn test_stable_tie_break_keeps_insertion_order() {
    let mut entries = Vec::new();
    entries.push(entry("aa", "aa", "first", 10));
    entries.push(entry("ab", "ab", "second", 10));
    entries.push(entry("ac", "ac", "third", 10));
    let dict = Dictionary::new(entries);
    assert_eq!(
        dict.suggest("a", 10),
        vec!["aa".to_string(), "ab".to_string(), "ac".to_string()]
    );
}
