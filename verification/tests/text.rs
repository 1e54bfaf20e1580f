use tf_doom::text::{
    as_strs, digit_char, join_text, nonempty_text, push_decimal, split_text, starts_with,
};

fn strings(items: &[&str]) -> Vec<String> {
    items.iter().map(|s| s.to_string()).collect()
}

#[test]
fn split_cuts_at_every_separator() {
    assert_eq!(split_text("a b c", ' '), strings(&["a", "b", "c"]));
}

#[test]
fn split_keeps_empty_pieces() {
    assert_eq!(split_text("", '\n'), strings(&[""]));
    assert_eq!(split_text("\n", '\n'), strings(&["", ""]));
    assert_eq!(split_text("a\n\nb\n", '\n'), strings(&["a", "", "b", ""]));
    assert_eq!(split_text("  x", ' '), strings(&["", "", "x"]));
}

#[test]
fn split_without_separator_is_one_piece() {
    assert_eq!(split_text("no-separator", ' '), strings(&["no-separator"]));
}

#[test]
fn split_is_what_std_gives() {
    for text in ["", "a", " ", "a b", " a  b ", "kill x y", "\u{e9} \u{1F600}"] {
        let expected: Vec<String> = text.split(' ').map(|s| s.to_string()).collect();
        assert_eq!(split_text(text, ' '), expected);
    }
}

#[test]
fn join_undoes_split() {
    for text in ["", "a", "\n", "a\nb", "\na\n\nb\n"] {
        let pieces = split_text(text, '\n');
        assert_eq!(join_text(&as_strs(&pieces), "\n"), text);
    }
}

#[test]
fn join_puts_the_separator_between() {
    assert_eq!(join_text(&["a", "b", "c"], " "), "a b c");
    assert_eq!(join_text(&["a", "b"], ", "), "a, b");
    assert_eq!(join_text(&["a", "", "b"], "-"), "a--b");
}

#[test]
fn join_of_none_and_of_one() {
    assert_eq!(join_text(&[], " "), "");
    assert_eq!(join_text(&["alone"], " "), "alone");
    assert_eq!(join_text(&[""], " "), "");
}

#[test]
fn as_strs_borrows_each() {
    let owned = strings(&["x", "", "yz"]);
    assert_eq!(as_strs(&owned), vec!["x", "", "yz"]);
    assert_eq!(as_strs(&Vec::new()), Vec::<&str>::new());
}

#[test]
fn nonempty_drops_the_empty_ones() {
    assert_eq!(nonempty_text(strings(&["", "a", "", "", "b", ""])), strings(&["a", "b"]));
    assert_eq!(nonempty_text(strings(&["", ""])), Vec::<String>::new());
    assert_eq!(nonempty_text(Vec::new()), Vec::<String>::new());
    assert_eq!(nonempty_text(strings(&["a", "a"])), strings(&["a", "a"]));
    assert_eq!(nonempty_text(strings(&[" "])), strings(&[" "]));
}

#[test]
fn digits_are_the_ten_characters() {
    let digits: String = (0..10).map(digit_char).collect();
    assert_eq!(digits, "0123456789");
    assert_eq!(digit_char(10), '9');
    assert_eq!(digit_char(usize::MAX), '9');
}

#[test]
fn decimal_of_small_and_large_numbers() {
    for n in [0usize, 1, 9, 10, 11, 99, 100, 101, 5900, 65535, 1234567890, usize::MAX] {
        let mut text = String::new();
        push_decimal(&mut text, n);
        assert_eq!(text, n.to_string());
    }
}

#[test]
fn decimal_is_appended() {
    let mut text = String::from("-p ");
    push_decimal(&mut text, 5900);
    assert_eq!(text, "-p 5900");
}

#[test]
fn starts_with_finds_the_prefix() {
    assert!(starts_with("TF_VAR", "TF_"));
    assert!(starts_with("TF_", "TF_"));
    assert!(starts_with("anything", ""));
    assert!(!starts_with("TF", "TF_"));
    assert!(!starts_with("", "TF_"));
    assert!(!starts_with("TG_VAR", "TF_"));
    assert!(!starts_with("xTF_", "TF_"));
}
