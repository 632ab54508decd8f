use str_dist::clean::{clean_ascii, clean_diacritics, remove_diacritics, remove_non_ascii};

fn s(x: &str) -> Option<String> {
    Some(x.to_string())
}

#[test]
fn removes_non_ascii_codepoints() {
    assert_eq!(remove_non_ascii("h\u{e9}llo"), "hllo");
    assert_eq!(remove_non_ascii("abc"), "abc");
    assert_eq!(remove_non_ascii(""), "");
    assert_eq!(remove_non_ascii("\u{65e5}\u{672c}"), "");
    assert_eq!(remove_non_ascii("a\u{65e5}b\u{672c}c"), "abc");
}

#[test]
fn remove_non_ascii_is_idempotent() {
    for input in ["h\u{e9}llo", "caf\u{e9}", "", "plain ascii", "\u{1f600}mixed\u{e9}"] {
        let once = remove_non_ascii(input);
        let twice = remove_non_ascii(&once);
        assert_eq!(twice, once);
    }
}

#[test]
fn removes_diacritics_cafe() {
    assert_eq!(remove_diacritics("caf\u{e9}"), "cafe");
}

#[test]
fn removes_diacritics_various() {
    assert_eq!(remove_diacritics("\u{e0}\u{e9}\u{ee}\u{f5}\u{fc}"), "aeiou");
    assert_eq!(remove_diacritics("na\u{ef}ve"), "naive");
    assert_eq!(remove_diacritics("plain"), "plain");
    assert_eq!(remove_diacritics(""), "");
}

#[test]
fn clean_ascii_preserves_nulls_and_order() {
    let seq = vec![s("h\u{e9}llo"), None, s("abc")];
    let out = clean_ascii(&seq);
    assert_eq!(out, vec![s("hllo"), None, s("abc")]);
}

#[test]
fn clean_diacritics_preserves_nulls_and_order() {
    let seq = vec![s("caf\u{e9}"), None, s("na\u{ef}ve")];
    let out = clean_diacritics(&seq);
    assert_eq!(out, vec![s("cafe"), None, s("naive")]);
}
