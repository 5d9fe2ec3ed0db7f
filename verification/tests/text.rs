use sip_message::decimal::{decimal_string, digit_text};
use sip_message::text::{
    chars_of, cut_after, cut_before, find, has_prefix, matches_at, same_text, split_text,
};

#[test]
fn chars_of_gives_each_character() {
    assert_eq!(chars_of("a\u{e9}b"), vec!['a', '\u{e9}', 'b']);
    assert_eq!(chars_of(""), Vec::<char>::new());
}

#[test]
fn matches_at_compares_in_place() {
    let s = chars_of("To: x");
    assert!(matches_at(&s, &chars_of("To:"), 0));
    assert!(matches_at(&s, &chars_of(": x"), 2));
    assert!(!matches_at(&s, &chars_of("To:"), 1));
    assert!(!matches_at(&s, &chars_of(": x"), 3));
    assert!(!matches_at(&s, &chars_of("x"), 9));
    assert!(matches_at(&s, &chars_of(""), 5));
}

#[test]
fn find_gives_the_first_place_or_the_length() {
    let s = chars_of("a:b:c");
    assert_eq!(find(&s, &chars_of(":"), 0), 1);
    assert_eq!(find(&s, &chars_of(":"), 1), 1);
    assert_eq!(find(&s, &chars_of(":"), 2), 3);
    assert_eq!(find(&s, &chars_of(":"), 4), 5);
    assert_eq!(find(&s, &chars_of("@"), 0), 5);
    assert_eq!(find(&s, &chars_of("b:c"), 0), 2);
    assert_eq!(find(&s, &chars_of(":"), 17), 5);
}

#[test]
fn same_text_is_exact() {
    assert!(same_text("ACK", "ACK"));
    assert!(!same_text("ACK", "ACk"));
    assert!(!same_text("ACK", "ACKK"));
    assert!(!same_text("ACKK", "ACK"));
    assert!(same_text("", ""));
}

#[test]
fn has_prefix_looks_at_the_start_only() {
    assert!(has_prefix("Via: x", "Via:"));
    assert!(!has_prefix(" Via: x", "Via:"));
    assert!(!has_prefix("Vi", "Via:"));
    assert!(has_prefix("Via:", "Via:"));
    assert!(!has_prefix("via: x", "Via:"));
}

#[test]
fn cut_before_and_after_the_first_mark() {
    assert_eq!(cut_before("1175@my.dom.ru", "@"), "1175");
    assert_eq!(cut_after("1175@my.dom.ru", "@"), "my.dom.ru");
    assert_eq!(cut_before("a@b@c", "@"), "a");
    assert_eq!(cut_after("a@b@c", "@"), "b@c");
    assert_eq!(cut_before("none", "@"), "none");
    assert_eq!(cut_after("none", "@"), "");
    assert_eq!(cut_after("end@", "@"), "");
    assert_eq!(cut_before("@start", "@"), "");
    assert_eq!(cut_after("\u{e9}\r\n\u{e8}", "\r\n"), "\u{e8}");
}

#[test]
fn split_text_cuts_at_every_separator() {
    assert_eq!(split_text("a\r\nb\r\n\r\nc", "\r\n"), vec!["a", "b", "", "c"]);
    assert_eq!(split_text("a\r\n", "\r\n"), vec!["a", ""]);
    assert_eq!(split_text("", "\r\n"), vec![""]);
    assert_eq!(split_text("abc", "\r\n"), vec!["abc"]);
    assert_eq!(split_text("a b  c", " "), vec!["a", "b", "", "c"]);
    assert_eq!(split_text("\r\r\n\n", "\r\n"), vec!["\r", "\n"]);
    assert_eq!(split_text("h\u{e9}llo w\u{f6}rld", " "), vec!["h\u{e9}llo", "w\u{f6}rld"]);
}

#[test]
fn split_text_by_nothing_is_one_piece() {
    assert_eq!(split_text("abc", ""), vec!["abc"]);
}

#[test]
fn decimal_numerals() {
    assert_eq!(decimal_string(0), "0");
    assert_eq!(decimal_string(7), "7");
    assert_eq!(decimal_string(10), "10");
    assert_eq!(decimal_string(909), "909");
    assert_eq!(decimal_string(1234567890), "1234567890");
    assert_eq!(decimal_string(usize::MAX), format!("{}", usize::MAX));
}

#[test]
fn digit_texts() {
    let all = ["0", "1", "2", "3", "4", "5", "6", "7", "8", "9"];
    for d in 0..10 {
        assert_eq!(digit_text(d), all[d]);
    }
}
