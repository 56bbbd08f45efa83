use tordln::text::{concat_str, decimal_u32, pad_left_str, pad_right_str, trim, trim_whitespace};

#[test]
fn trim_cuts_with_ellipsis() {
    assert_eq!(trim("hello", 5), "hello");
    assert_eq!(trim("hello!", 5), "hell…");
    assert_eq!(trim("héllo wörld", 4), "hél…");
    assert_eq!(trim("abc", 0), "…");
    assert_eq!(trim("", 0), "");
}

#[test]
fn decimal_and_padding() {
    assert_eq!(decimal_u32(0), "0");
    assert_eq!(decimal_u32(907), "907");
    assert_eq!(decimal_u32(u32::MAX), u32::MAX.to_string());
    assert_eq!(pad_left_str("7", 2), " 7");
    assert_eq!(pad_left_str("123", 2), "123");
    assert_eq!(pad_right_str("ab", 4), "ab  ");
    assert_eq!(concat_str("a", "bc"), "abc");
}

#[test]
fn whitespace_trimming() {
    assert_eq!(trim_whitespace("\u{2003} x y \t"), "x y");
    assert_eq!(trim_whitespace("   "), "");
}
