use pretend_core::text::{join_path, string_of, trim, white_space};

#[test]
fn trim_matches_std_trim() {
    let samples = [
        "  a b  ",
        "\t\n minecraft \r\n",
        "\u{3000}x\u{a0}",
        "\u{85}\u{2028}y\u{2029}\u{202f}",
        "",
        "   ",
        "no-space",
        "\u{200b}zero-width\u{200b}",
    ];
    for s in samples {
        assert_eq!(trim(s), s.trim());
    }
}

#[test]
fn white_space_matches_char_is_whitespace() {
    for u in 0u32..0x3100 {
        if let Some(c) = char::from_u32(u) {
            assert_eq!(white_space(c), c.is_whitespace(), "{:x}", u);
        }
    }
}

#[test]
fn join_path_inserts_one_separator() {
    assert_eq!(join_path("/a/b", "c"), "/a/b/c");
    assert_eq!(join_path("/a/b/", "c"), "/a/b/c");
    assert_eq!(join_path("", "c"), "c");
}

#[test]
fn string_of_chars() {
    assert_eq!(string_of(&['h', 'é', '!']), "hé!");
}
