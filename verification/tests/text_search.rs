use fig_viewer::text_search::{matches_query, matching_ranges, replace_matches};

#[test]
fn whole_word_matching_respects_boundaries() {
    assert!(matches_query("Primary Button", "button", false, true));
    assert!(!matches_query("Buttons", "button", false, true));
    assert!(matches_query("nav-button-icon", "button", false, true));
    assert!(matches_query("Button", "button", false, true));
    assert!(!matches_query("Button", "button", true, true));
}

#[test]
fn replace_matches_is_case_aware() {
    assert_eq!(
        replace_matches("Hello hello HELLO", "hello", "hi", false, false),
        "hi hi hi"
    );
    assert_eq!(
        replace_matches("Hello hello", "hello", "hi", true, false),
        "Hello hi"
    );
    assert_eq!(
        replace_matches("untouched", "", "x", false, false),
        "untouched"
    );
    assert_eq!(replace_matches("İx", "x", "y", false, false), "İy");
    assert_eq!(replace_matches("İ", "i", "x", false, false), "x");
    assert_eq!(replace_matches("ΟΣ", "ΟΣ", "x", false, false), "x");
    assert_eq!(
        replace_matches("cat catalog", "cat", "dog", true, true),
        "dog catalog"
    );
}

#[test]
fn in_ascii_ignoring_case_is_searching_small_letters() {
    let text = "Hello HELLO hello-World heLLo9";
    for whole_words in [false, true] {
        for query in ["HeLLo", "O", "WORLD", "9", "-w"] {
            assert_eq!(
                matching_ranges(text, query, false, whole_words),
                matching_ranges(
                    &text.to_ascii_lowercase(),
                    &query.to_ascii_lowercase(),
                    true,
                    whole_words
                )
            );
            assert_eq!(
                matches_query(text, query, false, whole_words),
                !matching_ranges(text, query, false, whole_words).is_empty()
            );
        }
    }
    assert_eq!(matching_ranges(text, "hello", false, true), vec![0..5, 6..11, 12..17]);
}
