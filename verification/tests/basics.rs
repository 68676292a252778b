//! Numbers by their bits, texts and identities.

use inf_editor_core::bits::F64;
use inf_editor_core::guid::Guid;
use inf_editor_core::text::{
    chars_of, concat3, decimal, hexadecimal, is_blank, join, same_text, text_below,
};

fn f(x: f64) -> F64 {
    F64::from_bits(x.to_bits())
}

#[test]
fn numbers_compare_as_doubles_do() {
    let values = [
        f64::NEG_INFINITY, -1.5, -5e-324, -0.0, 0.0, 5e-324, 1.0, 1.5, f64::MAX, f64::INFINITY,
        f64::NAN,
    ];
    for a in values {
        assert_eq!(f(a).is_nan(), a.is_nan());
        assert_eq!(f(a).is_finite(), a.is_finite());
        for b in values {
            assert_eq!(f(a).less(&f(b)), a < b, "{a} < {b}");
            assert_eq!(f(a).less_or_equal(&f(b)), a <= b, "{a} <= {b}");
            assert_eq!(f(a).same_number(&f(b)), a == b, "{a} == {b}");
        }
    }
}

#[test]
fn texts() {
    assert_eq!(chars_of("aé"), vec!['a', 'é']);
    assert!(same_text("aé", "aé") && !same_text("a", "b") && !same_text("a", "aa"));
    assert_eq!(concat3("a", "", "bc"), "abc");
    assert_eq!(decimal(0), "0");
    assert_eq!(decimal(u64::MAX), "18446744073709551615");
    assert_eq!(hexadecimal(0xAF, 4), "00af");
    assert_eq!(join("/a", "b"), "/a/b");
    for blank in ["", " ", "\t\r\n", "\u{a0}\u{2003}\u{3000}"] {
        assert!(is_blank(blank));
        assert!(blank.trim().is_empty());
    }
    assert!(!is_blank(" x ") && !is_blank("\u{200b}"));
}

#[test]
fn texts_are_ordered_as_strings_are() {
    let words = ["", "a", "aa", "ab", "b", "Z", "é", "z", "\u{ffff}", "\u{10000}"];
    for a in words {
        for b in words {
            assert_eq!(text_below(a, b), a < b, "{a:?} < {b:?}");
        }
    }
}

#[test]
fn identities() {
    let g = Guid::from_u128(0x0123_4567_89AB_CDEF_0011_2233_4455_6677);
    assert_eq!(g.text(), "01234567-89ab-cdef-0011-223344556677");
    assert_eq!(Guid::from_u128(0).text(), "00000000-0000-0000-0000-000000000000");
    assert_eq!(g.text(), uuid::Uuid::from_u128(g.value).to_string());
    let m = Guid::mint();
    assert_eq!(uuid::Uuid::from_u128(m.value).get_version_num(), 4);
    assert_eq!(m.text().chars().nth(14), Some('4'));
    assert_ne!(m, Guid::mint());
}
