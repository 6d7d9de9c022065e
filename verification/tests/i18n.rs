use strandgut::i18n::first_supported_language;
use strandgut::i18n::detect_language;

#[test]
fn test_detect_german() {
    assert_eq!(detect_language(Some("de-DE,de;q=0.9,en;q=0.8")), "de");
}

#[test]
fn test_detect_english() {
    assert_eq!(detect_language(Some("en-US,en;q=0.9")), "en");
}

#[test]
fn test_fallback_empty() {
    assert_eq!(detect_language(None), "en");
    assert_eq!(detect_language(Some("")), "en");
}

#[test]
fn test_fallback_unsupported() {
    assert_eq!(detect_language(Some("fr-FR")), "en");
}

#[test]
fn test_fallback_garbage() {
    assert_eq!(detect_language(Some("garbage")), "en");
}

#[test]
fn test_first_match() {
    assert_eq!(detect_language(Some("fr,de;q=0.5")), "de");
}

#[test]
fn test_case_insensitive() {
    assert_eq!(detect_language(Some("DE-de")), "de");
}

#[test]
fn detect_language_trims_and_skips_empty_entries() {
    assert_eq!(detect_language(Some(" , fr ;q=1,  EN-gb ;q=0.3, de")), "en");
    assert_eq!(detect_language(Some(",,,")), "en");
    assert_eq!(detect_language(Some("  de  ")), "de");
}

#[test]
fn first_supported_language_of_tags() {
    assert_eq!(first_supported_language(&vec!["fr".into(), "en".into(), "de".into()]), "en");
    assert_eq!(first_supported_language(&vec!["DE".into(), "de".into()]), "de");
    assert_eq!(first_supported_language(&vec![]), "en");
}
