use banks::counting::{countdown, double, handle_one, zero_to_three};
use banks::json::push_decimal;
use banks::pinning::{SelfReferential, SplitView};

#[test]
fn split_view_on_first_space() {
    let v = SplitView::new("hello world again");
    assert_eq!(v.value(), "hello world again");
    assert_eq!(v.first_word(), "hello");
    assert_eq!(v.second_word(), "world again");
}

#[test]
fn split_view_without_space() {
    let v = SplitView::new("héllo");
    assert_eq!(v.first_word(), "héllo");
    assert_eq!(v.second_word(), "");
    let v = SplitView::new(" x");
    assert_eq!(v.first_word(), "");
    assert_eq!(v.second_word(), "x");
}

#[test]
fn self_referential_values_agree() {
    let a = SelfReferential::new("hello");
    assert_eq!(a.value(), "hello");
    assert_eq!(a.value_via_self_ptr(), "hello");
}

#[test]
fn counting_values() {
    assert_eq!(countdown(3), vec![3, 2, 1, 0]);
    assert_eq!(countdown(0), vec![0]);
    assert_eq!(zero_to_three(), vec![0, 1, 2]);
    let mapped: Vec<u32> = zero_to_three().into_iter().map(handle_one).map(double).collect();
    assert_eq!(mapped, vec![0, 40, 4]);
}

#[test]
fn decimal_notation() {
    let mut s = String::from("n=");
    push_decimal(&mut s, 0);
    assert_eq!(s, "n=0");
    let mut s = String::new();
    push_decimal(&mut s, 1234567890);
    assert_eq!(s, "1234567890");
}

use banks::repl::{parse_command, Command};

#[test]
fn prompt_commands() {
    assert!(matches!(parse_command(""), Command::Skip));
    assert!(matches!(parse_command("   \t\n"), Command::Skip));
    assert!(matches!(parse_command("/exit"), Command::Quit));
    assert!(matches!(parse_command("  /quit \n"), Command::Quit));
    assert!(matches!(parse_command("  hello there  "), Command::Say(ref s) if s == "hello there"));
    assert!(matches!(parse_command("/exits"), Command::Say(ref s) if s == "/exits"));
}

#[test]
fn prompt_trims_unicode_white_space() {
    assert!(matches!(parse_command("hi"), Command::Say(ref s) if s == "hi"));
    assert!(matches!(parse_command("\u{3000}\u{a0}hi\u{2028}"), Command::Say(ref s) if s == "hi"));
    assert!(matches!(parse_command("\u{85}/exit\u{205f}"), Command::Quit));
}
