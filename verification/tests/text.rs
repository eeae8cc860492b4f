use dls::collections::VecMap;
use dls::text::{join, same_text, split_lines};

#[test]
fn lines_end_at_line_feeds() {
    assert_eq!(split_lines("a\r\nb\n\n c\r"), vec!["a", "b", "", " c\r"]);
    assert_eq!(split_lines("a\n"), vec!["a"]);
    assert_eq!(split_lines("a\n\n"), vec!["a", ""]);
    assert_eq!(split_lines("\u{e4}\r\r\n"), vec!["\u{e4}\r"]);
    assert!(split_lines("").is_empty());
    for text in ["a\r\nb\n\n c\r", "\n", "\r\n", "x", "x\ry\n"] {
        let expected: Vec<String> = text.lines().map(|l| l.to_string()).collect();
        assert_eq!(split_lines(text), expected);
    }
}

#[test]
fn parts_are_joined() {
    let parts = |all: &[&str]| all.iter().map(|p| p.to_string()).collect::<Vec<String>>();
    assert_eq!(join(&parts(&[]), ", "), "");
    assert_eq!(join(&parts(&["a"]), ", "), "a");
    assert_eq!(join(&parts(&["a", "", "c"]), ", "), "a, , c");
}

#[test]
fn texts_are_told_apart() {
    assert!(same_text("", ""));
    assert!(same_text("abc", "abc"));
    assert!(!same_text("abc", "ab"));
    assert!(!same_text("ab", "abc"));
    assert!(!same_text("abc", "abd"));
}

#[test]
fn maps_are_keyed_by_text() {
    let mut map: VecMap<String, u32> = VecMap::new();
    map.insert("a".to_string(), 1);
    map.insert("b".to_string(), 2);
    assert_eq!(map.get(&"b".to_string()), Some(&2));
    assert!(!map.contains_key(&"c".to_string()));
}
