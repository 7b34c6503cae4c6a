//! Exact decimal arithmetic and numeric-literal parsing.

use lucius::Num;
use lucius::NumOrd;
use lucius::num::num_add_sub;
use lucius::num::num_cmp;
use lucius::num::num_mul;
use lucius::num::parse_num;

#[test]
fn parses_integers_fractions_and_hex() {
    assert_eq!(parse_num("0"), Some(Num { mant: 0, scale: 0 }));
    assert_eq!(parse_num("42"), Some(Num { mant: 42, scale: 0 }));
    assert_eq!(parse_num("7.0"), Some(Num { mant: 70, scale: 1 }));
    assert_eq!(parse_num("2.50"), Some(Num { mant: 250, scale: 2 }));
    assert_eq!(parse_num("1."), Some(Num { mant: 1, scale: 0 }));
    assert_eq!(parse_num("0x4D"), Some(Num { mant: 0x4D, scale: 0 }));
    assert_eq!(parse_num("0Xff"), Some(Num { mant: 255, scale: 0 }));
}

#[test]
fn rejects_malformed_literals() {
    assert_eq!(parse_num(""), None);
    assert_eq!(parse_num("."), None);
    assert_eq!(parse_num(".5"), None);
    assert_eq!(parse_num("1.2.3"), None);
    assert_eq!(parse_num("1e3"), None);
    assert_eq!(parse_num("0x"), None);
    assert_eq!(parse_num("0xZZ"), None);
    assert_eq!(parse_num("abc"), None);
    // One digit past the largest representable mantissa.
    assert_eq!(parse_num("92233720368547758080"), None);
    // More fractional digits than a well-formed scale allows.
    assert_eq!(parse_num("0.0000000000000000001"), None);
}

#[test]
fn addition_aligns_scales_exactly() {
    let a = Num { mant: 10, scale: 1 }; // 1.0
    let b = Num { mant: 25, scale: 2 }; // 0.25
    assert_eq!(
        num_add_sub(a, b, false),
        Some(Num {
            mant: 125,
            scale: 2
        })
    );
    assert_eq!(
        num_add_sub(a, b, true),
        Some(Num { mant: 75, scale: 2 })
    );
}

#[test]
fn addition_overflow_is_reported() {
    let a = Num {
        mant: i64::MAX,
        scale: 0,
    };
    let b = Num { mant: 1, scale: 0 };
    assert_eq!(num_add_sub(a, b, false), None);
    assert_eq!(num_add_sub(a, b, true), Some(Num { mant: i64::MAX - 1, scale: 0 }));
}

#[test]
fn multiplication_adds_scales_and_reduces() {
    let a = Num { mant: 15, scale: 1 }; // 1.5
    assert_eq!(num_mul(a, a), Some(Num { mant: 225, scale: 2 }));
    let b = Num { mant: 30, scale: 1 }; // 3.0
    let c = Num { mant: -20, scale: 1 }; // -2.0
    assert_eq!(num_mul(b, c), Some(Num { mant: -600, scale: 2 }));
    let zero = Num { mant: 0, scale: 0 };
    assert_eq!(num_mul(zero, b), Some(Num { mant: 0, scale: 1 }));
}

#[test]
fn comparison_is_by_value_across_scales() {
    let one_a = Num { mant: 1, scale: 0 };
    let one_b = Num { mant: 100, scale: 2 };
    assert_eq!(num_cmp(one_a, one_b), NumOrd::Eq);
    let small = Num { mant: 999, scale: 3 };
    assert_eq!(num_cmp(small, one_a), NumOrd::Lt);
    assert_eq!(num_cmp(one_a, small), NumOrd::Gt);
    let neg = Num { mant: -1, scale: 18 };
    assert_eq!(num_cmp(neg, Num { mant: 0, scale: 0 }), NumOrd::Lt);
}
