use illakiya::sandhi::{AdhanSandhi, SandhiRule};

#[test]
fn test_empty_input() {
    let s = AdhanSandhi::new();
    assert_eq!(s.check_punarchi("", "அம்மா"), "அம்மா");
    assert_eq!(s.check_punarchi("தமிழ்", ""), "தமிழ்");
}

#[test]
fn test_iyalbu_punarchi() {
    let s = AdhanSandhi::new();
    let r = s.analyze("நல்ல", "மனிதன்");
    assert_eq!(r.rule, SandhiRule::IyalbuPunarchi);
}

#[test]
fn test_vallinam_migu() {
    let s = AdhanSandhi::new();
    let r = s.analyze("பூ", "கொடி");
    assert_eq!(r.rule, SandhiRule::VallinamMigu);
    // பூ + கொடி -> பூக்கொடி
    assert!(r.output.contains("க்"));
}

#[test]
fn test_idaiyinam_insertion() {
    let s = AdhanSandhi::new();
    let r = s.analyze("அ", "அ");
    assert_eq!(r.rule, SandhiRule::IdaiyinamInsertion);
    assert!(r.output.contains("ய்"));
}

#[test]
fn test_tontru_punarchi() {
    let s = AdhanSandhi::new();
    let r = s.analyze("மண்", "அழகு");
    assert_eq!(r.rule, SandhiRule::TontruPunarchi);
    // Pulli removed, consonant joins vowel
    assert!(!r.output.contains("்அ"));
}

#[test]
fn test_analyze_returns_confidence() {
    let s = AdhanSandhi::new();
    let r = s.analyze("நான்", "போ");
    assert!(r.confidence > 0);
    assert!(r.confidence <= 100);
}

#[test]
fn test_correction_recording() {
    let mut s = AdhanSandhi::new();
    s.record_correction("பூ", "கொடி", "பூக்கொடி");
    assert_eq!(s.get_corrections_count(), 1);
}

#[test]
fn test_vallinam_migu_exact_output() {
    let s = AdhanSandhi::new();
    let r = s.analyze("பூ", "கொடி");
    assert_eq!(r.output, "பூக்கொடி");
    assert_eq!(r.confidence, 80);
}

#[test]
fn test_tontru_exact_output() {
    let s = AdhanSandhi::new();
    let r = s.analyze("மண்", "அழகு");
    assert_eq!(r.output, "மணஅழகு");
    assert_eq!(r.confidence, 75);
}

#[test]
fn test_empty_word1_gives_no_rule() {
    let s = AdhanSandhi::new();
    let r = s.analyze("", "அம்மா");
    assert_eq!(r.rule, SandhiRule::NoRule);
    assert_eq!(r.output, "அம்மா");
    assert_eq!(r.confidence, 100);
}

#[test]
fn test_rule_order_pulli_selects_nasal_insertion() {
    let s = AdhanSandhi::new();
    // A hard consonant after the pulli must pick mellinam migu,
    // never vallinam migu: the trailing consonant is replaced by the
    // nasal paired with the following hard consonant.
    let r = s.analyze("கல்", "கரை");
    assert_eq!(r.rule, SandhiRule::MellinamMigu);
    assert_eq!(r.output, "கங்கரை");
    assert_eq!(r.confidence, 75);
}

#[test]
fn test_nasal_already_present_joins_unchanged() {
    let s = AdhanSandhi::new();
    let r = s.analyze("பொன்", "கலம்");
    assert_eq!(r.rule, SandhiRule::MellinamMigu);
    assert_eq!(r.output, "பொன்கலம்");
    assert_eq!(r.confidence, 85);
}

#[test]
fn test_uyirmei_tiribu() {
    let s = AdhanSandhi::new();
    let r = s.analyze("நிலா", "ஒளி");
    assert_eq!(r.rule, SandhiRule::UyirmeiTiribu);
    assert_eq!(r.output, "நிலவஒளி");
    assert_eq!(r.confidence, 70);
}

#[test]
fn test_iyalbu_concatenates() {
    let s = AdhanSandhi::new();
    let r = s.analyze("நல்ல", "மனிதன்");
    assert_eq!(r.output, "நல்லமனிதன்");
    assert_eq!(r.confidence, 60);
}

#[test]
fn test_analyze_is_deterministic() {
    let s = AdhanSandhi::new();
    let a = s.analyze("பூ", "கொடி");
    let b = s.analyze("பூ", "கொடி");
    assert_eq!(a.output, b.output);
    assert_eq!(a.rule, b.rule);
    assert_eq!(a.confidence, b.confidence);
}
