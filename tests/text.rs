use debuginfod::http_client::describe_status;
use debuginfod::text::push_decimal;
use debuginfod::text::trim_str;

#[test]
fn trim_removes_white_space_at_both_ends_only() {
    assert_eq!(trim_str("  a b \t\n"), "a b");
    assert_eq!(trim_str("\u{2003}x\u{205f}"), "x");
    assert_eq!(trim_str(" \t "), "");
    assert_eq!(trim_str(""), "");
    assert_eq!(trim_str("_x_"), "_x_");
}

#[test]
fn decimal_text_of_numbers() {
    let mut s = String::from("n=");
    push_decimal(&mut s, 0);
    assert_eq!(s, "n=0");
    let mut s = String::new();
    push_decimal(&mut s, 65535);
    assert_eq!(s, "65535");
    let mut s = String::new();
    push_decimal(&mut s, 100);
    assert_eq!(s, "100");
}

#[test]
fn status_descriptions() {
    assert_eq!(describe_status(500), "request failed with HTTP status 500 (Internal Server Error)");
    assert_eq!(describe_status(1000), "request failed with HTTP status 1000");
}
