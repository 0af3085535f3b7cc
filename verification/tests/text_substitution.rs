use kustomize_tools::text::replace_chars;

fn chars(s: &str) -> Vec<char> {
    s.chars().collect()
}

fn replace_str(text: &str, old: &str, new: &str) -> String {
    replace_chars(&chars(text), &chars(old), &chars(new)).into_iter().collect()
}

#[test]
fn replace_single_occurrence() {
    assert_eq!(replace_str("image: app:1.0.0", "1.0.0", "1.1.0"), "image: app:1.1.0");
}

#[test]
fn replace_every_occurrence() {
    assert_eq!(replace_str("1.0.0 then 1.0.0 then 1.0.0", "1.0.0", "2.0"), "2.0 then 2.0 then 2.0");
}

#[test]
fn replace_no_occurrence_leaves_text_unchanged() {
    assert_eq!(replace_str("nothing to see here", "1.0.0", "1.1.0"), "nothing to see here");
}

#[test]
fn replace_scans_non_overlapping_matches() {
    assert_eq!(replace_str("aaa", "aa", "b"), "ba");
    assert_eq!(replace_str("aaaa", "aa", "b"), "bb");
}

#[test]
fn replace_empty_pattern_inserts_everywhere() {
    assert_eq!(replace_str("abc", "", "-"), "-a-b-c-");
    assert_eq!(replace_str("", "", "-"), "-");
}

#[test]
fn replace_agrees_with_std_replace() {
    let cases = [
        ("v1 v2 v1", "v1", "v3"),
        ("tag: latest", "latest", "1.2.3"),
        ("aaa", "aa", "aab"),
        ("xyx", "q", "r"),
        ("abc", "", "-"),
        ("banana", "an", "AN"),
    ];
    for (text, old, new) in cases {
        assert_eq!(replace_str(text, old, new), text.replace(old, new));
    }
}

#[test]
fn replace_handles_multibyte_characters() {
    assert_eq!(replace_str("tag: caf\u{e9}", "caf\u{e9}", "espresso"), "tag: espresso");
}
