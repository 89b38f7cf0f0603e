use wallet_sweeper::text::trim;

#[test]
fn trim_drops_the_whitespace_around_a_text() {
    assert_eq!(trim("  abc \n"), "abc");
    assert_eq!(trim("abc"), "abc");
    assert_eq!(trim("\t a b \r\n"), "a b");
    assert_eq!(trim(""), "");
    assert_eq!(trim(" \n\t "), "");
    assert_eq!(trim("x"), "x");
    assert_eq!(trim(" x"), "x");
    assert_eq!(trim("x "), "x");
}

#[test]
fn trim_agrees_with_the_standard_trim() {
    for text in [
        "\u{2003}0aff\u{a0}",
        "\u{85}\u{1680}é ü\u{3000}",
        "\u{200b}zero width is no whitespace\u{200b}",
        "é",
        " \u{feff}bom ",
        "a\u{2028}b\u{2029}",
    ] {
        assert_eq!(trim(text), text.trim(), "text {:?}", text);
    }
}

#[test]
fn secret_is_trimmed_of_any_whitespace() {
    assert_eq!(
        wallet_sweeper::keys::decode_secret("\u{2003}0aff\u{a0}\n").unwrap(),
        vec![0x0a, 0xff]
    );
}
