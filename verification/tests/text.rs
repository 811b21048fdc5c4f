use tipjar::Text;

fn render(t: &Text) -> String {
    String::from_utf8(t.to_bytes()).unwrap()
}

#[test]
fn renders_unsigned_decimal() {
    assert_eq!(render(&Text::from_u64(0)), "0");
    assert_eq!(render(&Text::from_u64(7)), "7");
    assert_eq!(render(&Text::from_u64(1000)), "1000");
    assert_eq!(render(&Text::from_u64(u64::MAX)), u64::MAX.to_string());
}

#[test]
fn renders_signed_decimal() {
    assert_eq!(render(&Text::from_i128(0)), "0");
    assert_eq!(render(&Text::from_i128(410)), "410");
    assert_eq!(render(&Text::from_i128(-42)), "-42");
    assert_eq!(render(&Text::from_i128(i128::MAX)), i128::MAX.to_string());
    assert_eq!(render(&Text::from_i128(i128::MIN)), i128::MIN.to_string());
}

#[test]
fn text_keeps_utf8_bytes() {
    let t = Text::from_str("médaille");
    assert_eq!(t.to_bytes(), "médaille".as_bytes().to_vec());
    assert_eq!(t.len(), "médaille".len());
    assert!(t.equals(&Text::from_bytes("médaille".as_bytes().to_vec())));
    assert!(!t.equals(&Text::from_str("medaille")));
}
