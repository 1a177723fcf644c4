use rustconn_window::actions::{session_from_row_name, session_row_name};
use rustconn_window::order::{lex_less, stable_sort_indices};
use rustconn_window::text::{decimal_i64, join_exec, split_exec, trim_exec};
use rustconn_window::order::order_by_lowercase;

#[test]
fn uuid_text_and_parse() {
    assert_eq!(session_row_name(0), "session-00000000-0000-0000-0000-000000000000");
    assert_eq!(session_row_name(255), "session-00000000-0000-0000-0000-0000000000ff");
    assert_eq!(session_from_row_name("session-00000000-0000-0000-0000-0000000000ff"), Some(255));
    assert_eq!(session_from_row_name("session-nope"), None);
}

#[test]
fn lexicographic_sort() {
    assert!(lex_less(&['a'], &['b']));
    assert!(lex_less(&['a'], &['a', 'a']));
    assert!(!lex_less(&['b'], &['a', 'z']));
    let keys: Vec<Vec<char>> = ["b", "a", "b", "a"].iter().map(|s| s.chars().collect()).collect();
    assert_eq!(stable_sort_indices(&keys), vec![1, 3, 0, 2]);
}

#[test]
fn text_helpers() {
    let v: String = trim_exec(&" \tx y\n".chars().collect::<Vec<_>>()).into_iter().collect();
    assert_eq!(v, "x y");
    let parts = split_exec(&"a,,b".chars().collect::<Vec<_>>(), ',');
    assert_eq!(parts.len(), 3);
    let j: String = join_exec(&parts, &[';']).into_iter().collect();
    assert_eq!(j, "a;;b");
    let d: String = decimal_i64(-42).into_iter().collect();
    assert_eq!(d, "-42");
}

#[test]
fn names_sorted_case_insensitively() {
    let names: Vec<String> = ["beta", "Alpha", "alpha", "Gamma"].iter().map(|s| s.to_string()).collect();
    assert_eq!(order_by_lowercase(&names), vec![1, 2, 0, 3]);
}
