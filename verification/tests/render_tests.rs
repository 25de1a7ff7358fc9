use timer::countdown::CountdownState;
use timer::render::decimal_digits;
use timer::render::render_lines;

#[test]
fn digits_of_zero() {
    assert_eq!(decimal_digits(0), b"0".to_vec());
}

#[test]
fn digits_of_one_digit_value() {
    assert_eq!(decimal_digits(7), b"7".to_vec());
}

#[test]
fn digits_of_two_digit_value() {
    assert_eq!(decimal_digits(59), b"59".to_vec());
}

#[test]
fn digits_with_inner_zero() {
    assert_eq!(decimal_digits(100), b"100".to_vec());
    assert_eq!(decimal_digits(1005), b"1005".to_vec());
}

#[test]
fn digits_of_the_wrap_value() {
    assert_eq!(decimal_digits(1111), b"1111".to_vec());
}

#[test]
fn digits_of_the_largest_value() {
    assert_eq!(decimal_digits(u16::MAX), b"65535".to_vec());
}

#[test]
fn lines_show_the_three_counters_at_fixed_offsets() {
    let lines = render_lines(&CountdownState { hour: 5, minute: 3, second: 10 });
    assert_eq!(lines.len(), 3);
    assert_eq!(lines[0].y, 0);
    assert_eq!(lines[0].text, b"5".to_vec());
    assert_eq!(lines[1].y, 16);
    assert_eq!(lines[1].text, b"3".to_vec());
    assert_eq!(lines[2].y, 32);
    assert_eq!(lines[2].text, b"10".to_vec());
}

#[test]
fn lines_show_the_initial_display() {
    let lines = render_lines(&CountdownState { hour: 1111, minute: 11, second: 11 });
    assert_eq!(lines[0].text, b"1111".to_vec());
    assert_eq!(lines[1].text, b"11".to_vec());
    assert_eq!(lines[2].text, b"11".to_vec());
}
