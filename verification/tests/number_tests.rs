use lox_interp::number;
use lox_interp::report::{report_error, report_error_multiline};
use lox_interp::text::to_decimal;

fn samples() -> Vec<f64> {
    vec![
        0.0,
        -0.0,
        1.0,
        -1.0,
        0.5,
        -0.5,
        1.5,
        2.0,
        1e-320,
        -1e-320,
        f64::MIN_POSITIVE,
        f64::MAX,
        f64::MIN,
        f64::INFINITY,
        f64::NEG_INFINITY,
        f64::NAN,
        -f64::NAN,
        f64::from_bits(0x7FF0_0000_0000_0001),
        f64::from_bits(0xFFFF_FFFF_FFFF_FFFF),
        3.141592653589793,
        -2.718281828459045,
        1e300,
        -1e300,
    ]
}

#[test]
fn comparisons_agree_with_the_hardware() {
    for a in samples() {
        for b in samples() {
            let (x, y) = (a.to_bits(), b.to_bits());
            assert_eq!(number::lt(x, y), a < b, "{} < {}", a, b);
            assert_eq!(number::le(x, y), a <= b, "{} <= {}", a, b);
            assert_eq!(number::eq(x, y), a == b, "{} == {}", a, b);
        }
    }
}

#[test]
fn negation_agrees_with_the_hardware() {
    for a in samples() {
        assert_eq!(number::negate(a.to_bits()), (-a).to_bits());
        assert_eq!(number::nan(a.to_bits()), a.is_nan());
    }
}

#[test]
fn exact_patterns() {
    assert_eq!(number::negate(0), 0x8000_0000_0000_0000);
    assert_eq!(number::negate(0x8000_0000_0000_0000), 0);
    assert_eq!(number::negate(1.0f64.to_bits()), 0xBFF0_0000_0000_0000);
    assert!(!number::nan(0x7FF0_0000_0000_0000));
    assert!(number::nan(0x7FF0_0000_0000_0001));
    assert!(number::eq(0, 0x8000_0000_0000_0000));
    assert!(!number::lt(0x8000_0000_0000_0000, 0));
}

#[test]
fn decimal_text() {
    assert_eq!(to_decimal(0), "0");
    assert_eq!(to_decimal(7), "7");
    assert_eq!(to_decimal(10), "10");
    assert_eq!(to_decimal(255), "255");
    assert_eq!(to_decimal(1_000_000), "1000000");
    assert_eq!(to_decimal(usize::MAX), usize::MAX.to_string());
}

#[test]
fn report_of_an_error() {
    let lines = vec!["var a = 1;".to_string(), "print +;".to_string()];
    assert_eq!(
        report_error(2, &lines, 7, "Expect expression."),
        vec![
            "Error: Expect expression.".to_string(),
            "".to_string(),
            "   2 | print +;".to_string(),
            "     |       ^-- Here.".to_string()
        ]
    );
    assert_eq!(report_error(1, &lines, 1, "m")[3], "     | ^-- Here.");
    assert_eq!(report_error(1, &lines, 0, "m")[3], "     | ^-- Here.");
}

#[test]
fn report_for_a_line_that_is_not_there() {
    let lines = vec!["x".to_string()];
    assert!(report_error(0, &lines, 1, "m").is_empty());
    assert!(report_error(2, &lines, 1, "m").is_empty());
    assert!(report_error(1, &[], 1, "m").is_empty());
}

#[test]
fn report_with_a_long_line_number() {
    let lines: Vec<String> = (0..12345).map(|i| format!("l{}", i)).collect();
    assert_eq!(report_error(12345, &lines, 2, "m")[2], "12345 | l12344");
    assert_eq!(report_error(100, &lines, 2, "m")[2], " 100 | l99");
}

#[test]
fn report_over_several_lines() {
    let lines = vec!["x = \"abc".to_string(), "def".to_string()];
    assert_eq!(
        report_error_multiline(9, &lines, 5, "Unterminated string."),
        vec![
            "Error: Unterminated string.".to_string(),
            "".to_string(),
            "   9 | x = \"abc".to_string(),
            "     |     ^-- String starts here".to_string(),
            "  10 | def".to_string(),
            "     | ... string never closes".to_string()
        ]
    );
    assert_eq!(
        report_error_multiline(1, &[], 1, "m"),
        vec!["Error: m".to_string(), "".to_string(), "     | ... string never closes".to_string()]
    );
}
