use supersilver::decimal::{parse_u32_str, push_decimal};

#[test]
fn writes_decimal() {
    let mut s = String::from("n=");
    push_decimal(&mut s, 0);
    assert_eq!(s, "n=0");
    let mut s = String::new();
    push_decimal(&mut s, u32::MAX);
    assert_eq!(s, "4294967295");
}

#[test]
fn parses_like_std() {
    for text in ["", "+", "-", "0", "+0", "-0", "12", "+12", "1 2", "007", "4294967295", "4294967296", "99999999999999999999", "١٢"] {
        assert_eq!(parse_u32_str(text), text.parse::<u32>().ok(), "{text:?}");
    }
}
