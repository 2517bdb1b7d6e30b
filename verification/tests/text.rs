use evmqtt_rs::text::{decimal_text, hex_text, sorts_before, text_eq, trim, white_space};

#[test]
fn white_space_is_unicode_white_space() {
    for c in '\0'..=char::MAX {
        assert_eq!(white_space(c), c.is_whitespace(), "{c:?}");
    }
}

#[test]
fn trim_matches_std() {
    for s in ["", "  ", " a b ", "\u{3000}x\n", "x", "\t\r\n y"] {
        assert_eq!(trim(s), s.trim());
    }
}

#[test]
fn numerals_match_std() {
    for n in [0u128, 7, 10, 65535, u64::MAX as u128, u128::MAX] {
        assert_eq!(decimal_text(n), n.to_string());
    }
    assert_eq!(hex_text(0x46d, 4), "046d");
    assert_eq!(hex_text(u64::MAX, 16), "ffffffffffffffff");
    assert_eq!(hex_text(0, 0), "");
}

#[test]
fn text_order_matches_std() {
    let words = ["", "a", "ab", "b", "Z", "ü", "\u{10000}", "\u{ffff}"];
    for a in words {
        for b in words {
            assert_eq!(sorts_before(a, b), a < b, "{a:?} {b:?}");
            assert_eq!(text_eq(a, b), a == b);
        }
    }
}
