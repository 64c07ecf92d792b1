use zellij_server::restored_history::{assert_restored_history, count_occurrences};

fn history(lines: std::ops::Range<usize>) -> String {
    lines.map(|l| format!("history {l:02}\n")).collect()
}

#[test]
fn forty_restored_lines_pass() {
    assert!(assert_restored_history(&history(0..40), 10));
}

#[test]
fn missing_repeated_or_banner_lines_fail() {
    assert!(!assert_restored_history(&history(0..39), 10));
    let repeated = history(0..40) + "history 07\n";
    assert!(!assert_restored_history(&repeated, 10));
    let waiting = history(0..40) + "Waiting to run: ls\n";
    assert!(!assert_restored_history(&waiting, 10));
    let shell = history(0..40) + "<ESC> drop to shell\n";
    assert!(!assert_restored_history(&shell, 10));
    assert!(!assert_restored_history(&history(0..40), 0));
}

#[test]
fn occurrences_are_counted_where_they_start() {
    assert_eq!(count_occurrences(b"abcabcab", &b"ab".to_vec()), 3);
    assert_eq!(count_occurrences(b"aaaa", &b"aa".to_vec()), 3);
    assert_eq!(count_occurrences(b"a", &b"aa".to_vec()), 0);
}
