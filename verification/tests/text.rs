use latex_cut::text::{contains, find, join, matches_at, split, to_chars};

fn strings(items: &[&str]) -> Vec<String> {
    items.iter().map(|s| String::from(*s)).collect()
}

#[test]
fn to_chars_gives_characters_not_bytes() {
    assert_eq!(to_chars("aé€"), vec!['a', 'é', '€']);
    assert_eq!(to_chars(""), Vec::<char>::new());
}

#[test]
fn matches_at_compares_in_place() {
    let text = to_chars("abcabc");
    let pattern = to_chars("bc");
    assert!(!matches_at(&text, &pattern, 0));
    assert!(matches_at(&text, &pattern, 1));
    assert!(matches_at(&text, &pattern, 4));
    assert!(!matches_at(&text, &pattern, 5));
    assert!(!matches_at(&text, &pattern, usize::MAX));
    assert!(matches_at(&text, &Vec::new(), 6));
    assert!(!matches_at(&text, &Vec::new(), 7));
    assert!(!matches_at(&pattern, &text, 0));
}

#[test]
fn find_gives_first_position_from_start() {
    let text = to_chars("abcabc");
    let pattern = to_chars("bc");
    assert_eq!(find(&text, &pattern, 0), Some(1));
    assert_eq!(find(&text, &pattern, 1), Some(1));
    assert_eq!(find(&text, &pattern, 2), Some(4));
    assert_eq!(find(&text, &pattern, 5), None);
    assert_eq!(find(&text, &pattern, 100), None);
    assert_eq!(find(&to_chars("a"), &to_chars("abc"), 0), None);
}

#[test]
fn contains_finds_plain_text() {
    assert!(contains("a,b", ","));
    assert!(!contains("a;b", ","));
    assert!(contains("a.*b", ".*"));
    assert!(!contains("axxb", ".*"));
    assert!(contains("x::y", "::"));
    assert!(!contains("x:y", "::"));
    assert!(contains("", ""));
    assert!(!contains("", ","));
}

#[test]
fn split_without_separator_gives_whole_text() {
    assert_eq!(split("abc", ","), strings(&["abc"]));
    assert_eq!(split("", ","), strings(&[""]));
}

#[test]
fn split_cuts_at_each_separator() {
    assert_eq!(split("a,b,c", ","), strings(&["a", "b", "c"]));
}

#[test]
fn split_keeps_empty_pieces() {
    assert_eq!(split("a,,b", ","), strings(&["a", "", "b"]));
    assert_eq!(split(",a", ","), strings(&["", "a"]));
    assert_eq!(split("a,", ","), strings(&["a", ""]));
    assert_eq!(split(",", ","), strings(&["", ""]));
    assert_eq!(split(",,", ","), strings(&["", "", ""]));
}

#[test]
fn split_on_longer_separator() {
    assert_eq!(split("a::b::c", "::"), strings(&["a", "b", "c"]));
    assert_eq!(split("a:b::c", "::"), strings(&["a:b", "c"]));
    assert_eq!(split("a:::b", "::"), strings(&["a", ":b"]));
}

#[test]
fn split_takes_occurrences_from_the_left() {
    assert_eq!(split("aaa", "aa"), strings(&["", "a"]));
    assert_eq!(split("aaaa", "aa"), strings(&["", "", ""]));
}

#[test]
fn split_agrees_with_std() {
    let cases = [
        ("a,b,c", ","),
        ("", ","),
        (",,x,,", ","),
        ("abcabcab", "abc"),
        ("aaaaa", "aa"),
        ("é|€|日本", "|"),
        ("1€2€3", "€"),
        ("x--y---z", "--"),
    ];
    for (text, separator) in cases {
        let expected: Vec<String> = text.split(separator).map(String::from).collect();
        assert_eq!(split(text, separator), expected);
        assert_eq!(contains(text, separator), text.contains(separator));
    }
}

#[test]
fn split_counts_characters_beyond_ascii() {
    assert_eq!(split("é,€,日本", ","), strings(&["é", "€", "日本"]));
    assert_eq!(split("a→b→c", "→"), strings(&["a", "b", "c"]));
}

#[test]
fn join_puts_separator_between_parts() {
    assert_eq!(join(&strings(&["a", "b", "c"]), " & "), "a & b & c");
}

#[test]
fn join_of_one_part_has_no_separator() {
    assert_eq!(join(&strings(&["a"]), " & "), "a");
}

#[test]
fn join_of_nothing_is_empty() {
    assert_eq!(join(&Vec::new(), " & "), "");
}

#[test]
fn join_keeps_empty_parts() {
    assert_eq!(join(&strings(&["", "", ""]), ","), ",,");
    assert_eq!(join(&strings(&["", "b"]), ""), "b");
}

#[test]
fn join_undoes_split() {
    for (text, separator) in [("a,b,,c,", ","), ("aaa", "aa"), ("no separator", "|")] {
        assert_eq!(join(&split(text, separator), separator), text);
    }
}
