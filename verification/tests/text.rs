use photon_engine::text::{chars_of, sort_strings, split_words, string_from_chars, trim_chars};

#[test]
fn split_words_like_split_whitespace() {
    for s in ["", "  a  b\tc\n", "tp 1 2 3", "\u{3000}x\u{00a0}y ", "one"] {
        let got: Vec<String> = split_words(&chars_of(s)).iter().map(|w| string_from_chars(w)).collect();
        let want: Vec<String> = s.split_whitespace().map(|w| w.to_string()).collect();
        assert_eq!(got, want, "input {:?}", s);
    }
}

#[test]
fn trim_like_std() {
    for s in ["", "   ", " a b ", "\u{2003}x\u{2028}", "none"] {
        assert_eq!(string_from_chars(&trim_chars(&chars_of(s))), s.trim());
    }
}

#[test]
fn sort_like_std() {
    let v: Vec<String> = ["b", "a", "B", "ab", "", "ä", "a"].iter().map(|s| s.to_string()).collect();
    let mut want = v.clone();
    want.sort();
    assert_eq!(sort_strings(&v), want);
}
