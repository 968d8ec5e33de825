use browser_core::pattern::{chars_of, find_first, split};

fn chars(text: &str) -> Vec<char> {
    text.chars().collect()
}

fn split_strs(sentence: &str, pattern: &str, second_default: &str) -> (String, String) {
    split(sentence.to_string(), pattern, second_default.to_string())
}

#[test]
fn chars_of_keeps_order_and_count() {
    assert_eq!(vec!['a', 'é', '道', 'b'], chars_of("aé道b"));
    assert_eq!(Vec::<char>::new(), chars_of(""));
}

#[test]
fn find_first_gives_the_least_position() {
    assert_eq!(Some(4), find_first(&chars("http://a://b"), &chars("://")));
    assert_eq!(Some(0), find_first(&chars("abcabc"), &chars("abc")));
    assert_eq!(Some(3), find_first(&chars("aababc"), &chars("abc")));
    assert_eq!(Some(1), find_first(&chars("道/路"), &chars("/")));
}

#[test]
fn find_first_of_the_empty_pattern_is_the_start() {
    assert_eq!(Some(0), find_first(&chars("abc"), &chars("")));
    assert_eq!(Some(0), find_first(&chars(""), &chars("")));
}

#[test]
fn find_first_without_occurrence() {
    assert_eq!(None, find_first(&chars("abc"), &chars("abcd")));
    assert_eq!(None, find_first(&chars("http:/example"), &chars("://")));
    assert_eq!(None, find_first(&chars(""), &chars("/")));
}

#[test]
fn split_on_first_occurrence() {
    assert_eq!(("a".to_string(), "b/c".to_string()), split_strs("a/b/c", "/", "x"));
    assert_eq!(("http".to_string(), "h://p".to_string()), split_strs("http://h://p", "://", ""));
    assert_eq!(("".to_string(), "abc".to_string()), split_strs("/abc", "/", "x"));
    assert_eq!(("abc".to_string(), "".to_string()), split_strs("abc/", "/", "x"));
}

#[test]
fn split_without_occurrence_gives_the_default() {
    assert_eq!(("example.com".to_string(), "80".to_string()), split_strs("example.com", ":", "80"));
    assert_eq!(("".to_string(), "80".to_string()), split_strs("", ":", "80"));
    assert_eq!(("ab".to_string(), "d".to_string()), split_strs("ab", "abc", "d"));
}

#[test]
fn split_on_the_empty_pattern() {
    assert_eq!(("".to_string(), "abc".to_string()), split_strs("abc", "", "x"));
    assert_eq!(("".to_string(), "".to_string()), split_strs("", "", "x"));
}

#[test]
fn split_counts_characters_not_bytes() {
    assert_eq!(("例え".to_string(), "道路".to_string()), split_strs("例え→道路", "→", ""));
    assert_eq!(("é".to_string(), "ü/ö".to_string()), split_strs("é/ü/ö", "/", ""));
}

#[test]
fn split_agrees_with_std() {
    let sentences = ["", "a", "a:b", "://", "a://b://c", ":/:/://x", "aaa", "道:路"];
    let patterns = ["", ":", "://", "a", "aa", "路"];
    for sentence in sentences {
        for pattern in patterns {
            let expected = match sentence.split_once(pattern) {
                Some((first, second)) => (first.to_string(), second.to_string()),
                None => (sentence.to_string(), "none".to_string()),
            };
            assert_eq!(expected, split_strs(sentence, pattern, "none"));
        }
    }
}
