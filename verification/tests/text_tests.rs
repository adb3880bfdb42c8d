use projdash::text::{contains_substring, normalize, normalize_twice, str_eq};

#[test]
fn normalize_case_and_punctuation_insensitive() {
    assert_eq!(normalize("Daily-Digest"), normalize("daily digest"));
    assert_eq!(normalize("Daily Digest"), "dailydigest");
    assert_eq!(normalize("my_cool-project x"), "mycoolprojectx");
}

#[test]
fn normalize_lowercases() {
    assert_eq!(normalize("ABC"), "abc");
    assert_eq!(normalize("MixedCase"), "mixedcase");
}

#[test]
fn normalize_idempotent_examples() {
    let once = normalize("Foo-Bar baz_QUX");
    assert_eq!(normalize(&once), once);
    assert_eq!(normalize_twice("Foo-Bar baz_QUX"), once);
    assert_eq!(normalize(&normalize("")), normalize(""));
}

#[test]
fn normalize_empty_and_punctuation_only() {
    assert_eq!(normalize(""), "");
    assert_eq!(normalize("- _ -"), "");
}

#[test]
fn contains_substring_cases() {
    assert!(contains_substring("hello", "ell"));
    assert!(contains_substring("hello", "hello"));
    assert!(contains_substring("hello", ""));
    assert!(contains_substring("", ""));
    assert!(!contains_substring("he", "hello"));
    assert!(!contains_substring("hello", "elo"));
}

#[test]
fn str_eq_cases() {
    assert!(str_eq("abc", "abc"));
    assert!(!str_eq("abc", "abd"));
    assert!(!str_eq("abc", "ab"));
    assert!(str_eq("", ""));
}
