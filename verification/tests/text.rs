use hd2mm_lib::text::{chars_of, contains, decimal_text, select_containing, signed_decimal_text, str_eq};

#[test]
fn decimal_text_writes_numbers_as_rust_does() {
    for n in [0u64, 1, 9, 10, 11, 99, 100, 101, 4711, 1_000_000, u32::MAX as u64, u64::MAX] {
        assert_eq!(decimal_text(n), n.to_string());
    }
    assert_eq!(decimal_text(120), "120");
}

#[test]
fn signed_decimal_text_writes_numbers_as_rust_does() {
    for n in [0i64, 1, -1, 10, -10, 4711, -4711, i64::MAX, i64::MIN, i64::MIN + 1] {
        assert_eq!(signed_decimal_text(n), n.to_string());
    }
    assert_eq!(signed_decimal_text(-305), "-305");
}

#[test]
fn contains_finds_a_text_wherever_it_stands() {
    assert!(contains("abc.patch_0", ".patch_"));
    assert!(contains(".patch_", ".patch_"));
    assert!(contains("x.patch_", ".patch_"));
    assert!(contains(".patch_x", ".patch_"));
    assert!(contains("anything", ""));
    assert!(contains("", ""));
    assert!(!contains("", "a"));
    assert!(!contains("abc.patch0", ".patch_"));
    assert!(!contains(".patch", ".patch_"));
    assert!(!contains("patch_", ".patch_"));
    assert!(contains("aab", "ab"));
    assert!(contains("héllo wörld", "wö"));
    assert!(!contains("héllo", "hello"));
}

#[test]
fn str_eq_compares_character_by_character() {
    assert!(str_eq("", ""));
    assert!(str_eq("Helldivers 2", "Helldivers 2"));
    assert!(!str_eq("Helldivers 2", "Helldivers 3"));
    assert!(!str_eq("Helldivers 2", "Helldivers"));
    assert!(!str_eq("a", "ab"));
    assert!(str_eq("ü", "ü"));
}

#[test]
fn chars_of_lists_the_characters() {
    assert_eq!(chars_of(""), Vec::<char>::new());
    assert_eq!(chars_of("aä€"), vec!['a', 'ä', '€']);
}

#[test]
fn select_containing_keeps_the_order() {
    let texts = vec!["b.patch_1".to_owned(), "x".to_owned(), "a.patch_0".to_owned(), "patch".to_owned()];
    assert_eq!(select_containing(&texts, ".patch_"), vec!["b.patch_1".to_owned(), "a.patch_0".to_owned()]);
    assert_eq!(select_containing(&texts, "zzz"), Vec::<String>::new());
    assert_eq!(select_containing(&Vec::new(), ""), Vec::<String>::new());
}
