use typelox::number::abs_bits;
use typelox::number::bits_are_nan;
use typelox::number::bits_equal;
use typelox::number::bits_greater;
use typelox::number::bits_less;
use typelox::number::negate_bits;
use typelox::value::Value;
use typelox::value::ValueKind;

fn samples() -> Vec<f64> {
    vec![
        0.0,
        -0.0,
        1.0,
        -1.0,
        1.5,
        -1.5,
        2.0,
        0.1,
        -0.1,
        1e300,
        -1e300,
        5e-324,
        -5e-324,
        f64::MIN_POSITIVE,
        f64::MAX,
        f64::MIN,
        f64::EPSILON,
        f64::INFINITY,
        f64::NEG_INFINITY,
        f64::NAN,
        -f64::NAN,
        f64::from_bits(0x7ff0_0000_0000_0001),
        f64::from_bits(0xffff_ffff_ffff_ffff),
    ]
}

#[test]
fn default_value_is_nil() {
    assert_eq!(Value::default(), Value::Nil);
}

#[test]
fn kinds_of_values() {
    assert_eq!(Value::Nil.kind(), ValueKind::Nil);
    assert_eq!(Value::Boolean(false).kind(), ValueKind::Boolean);
    assert_eq!(Value::Number(0).kind(), ValueKind::Number);
}

#[test]
fn nil_and_false_are_falsy_everything_else_truthy() {
    assert!(!Value::Nil.is_truthy());
    assert!(!Value::Boolean(false).is_truthy());
    assert!(Value::Boolean(true).is_truthy());
    for x in samples() {
        assert!(Value::Number(x.to_bits()).is_truthy());
    }
}

#[test]
fn equality_within_a_kind() {
    assert!(Value::Nil.equals(&Value::Nil));
    assert!(Value::Boolean(true).equals(&Value::Boolean(true)));
    assert!(Value::Boolean(false).equals(&Value::Boolean(false)));
    assert!(!Value::Boolean(true).equals(&Value::Boolean(false)));
    assert!(Value::Number(1.5f64.to_bits()).equals(&Value::Number(1.5f64.to_bits())));
    assert!(!Value::Number(1.5f64.to_bits()).equals(&Value::Number(2.5f64.to_bits())));
}

#[test]
fn equality_across_kinds_is_false() {
    let all = vec![
        Value::Nil,
        Value::Boolean(false),
        Value::Boolean(true),
        Value::Number(0),
        Value::Number(1.0f64.to_bits()),
    ];
    for a in &all {
        for b in &all {
            if a.kind() != b.kind() {
                assert!(!a.equals(b));
            }
        }
    }
    assert!(!Value::Number(1.0f64.to_bits()).equals(&Value::Boolean(true)));
    assert!(!Value::Number(0).equals(&Value::Boolean(false)));
    assert!(!Value::Number(0).equals(&Value::Nil));
}

#[test]
fn number_equality_is_that_of_doubles() {
    for a in samples() {
        for b in samples() {
            assert_eq!(bits_equal(a.to_bits(), b.to_bits()), a == b, "{a:?} == {b:?}");
            assert_eq!(
                Value::Number(a.to_bits()).equals(&Value::Number(b.to_bits())),
                a == b
            );
        }
    }
    assert!(bits_equal(0.0f64.to_bits(), (-0.0f64).to_bits()));
    assert!(!bits_equal(f64::NAN.to_bits(), f64::NAN.to_bits()));
}

#[test]
fn number_order_is_that_of_doubles() {
    for a in samples() {
        for b in samples() {
            assert_eq!(bits_less(a.to_bits(), b.to_bits()), a < b, "{a:?} < {b:?}");
            assert_eq!(bits_greater(a.to_bits(), b.to_bits()), a > b, "{a:?} > {b:?}");
        }
    }
}

#[test]
fn negation_is_that_of_doubles() {
    for a in samples() {
        assert_eq!(negate_bits(a.to_bits()), (-a).to_bits());
        assert_eq!(negate_bits(negate_bits(a.to_bits())), a.to_bits());
    }
    assert_eq!(negate_bits(0x3ff0_0000_0000_0000), 0xbff0_0000_0000_0000);
}

#[test]
fn nan_and_magnitude_are_those_of_doubles() {
    for a in samples() {
        assert_eq!(bits_are_nan(a.to_bits()), a.is_nan());
        assert_eq!(abs_bits(a.to_bits()), a.abs().to_bits());
    }
}

#[test]
fn as_number_gives_the_bits_of_a_number_only() {
    assert_eq!(Value::Number(7).as_number(), Some(7));
    assert_eq!(Value::Nil.as_number(), None);
    assert_eq!(Value::Boolean(true).as_number(), None);
}

#[test]
fn values_are_written_exactly() {
    assert_eq!(Value::Nil.to_text(), "nil");
    assert_eq!(Value::Boolean(true).to_text(), "true");
    assert_eq!(Value::Boolean(false).to_text(), "false");
    assert_eq!(Value::Number(1.5f64.to_bits()).to_text(), "0x3ff8000000000000");
    assert_eq!(Value::Number(0).to_text(), "0x0000000000000000");
    assert_eq!(Value::Number(u64::MAX).to_text(), "0xffffffffffffffff");
    assert_eq!(Value::Number((-2.0f64).to_bits()).to_text(), "0xc000000000000000");
    assert_eq!(Value::Number(0x0123_4567_89ab_cdef).to_text(), "0x0123456789abcdef");
}

#[test]
fn written_values_read_back() {
    let mut all = vec![Value::Nil, Value::Boolean(true), Value::Boolean(false)];
    for x in samples() {
        all.push(Value::Number(x.to_bits()));
    }
    for value in all {
        assert_eq!(Value::parse(&value.to_text()), Some(value));
    }
}

#[test]
fn written_numbers_read_back_as_the_same_double() {
    for x in samples() {
        let text = Value::Number(x.to_bits()).to_text();
        match Value::parse(&text) {
            Some(Value::Number(bits)) => {
                assert_eq!(bits, x.to_bits());
                let back = f64::from_bits(bits);
                assert!(back == x || (back.is_nan() && x.is_nan()));
            }
            other => panic!("{text} read back as {other:?}"),
        }
    }
}

#[test]
fn parse_reads_each_form() {
    assert_eq!(Value::parse("nil"), Some(Value::Nil));
    assert_eq!(Value::parse("true"), Some(Value::Boolean(true)));
    assert_eq!(Value::parse("false"), Some(Value::Boolean(false)));
    assert_eq!(
        Value::parse("0x4000000000000000"),
        Some(Value::Number(2.0f64.to_bits()))
    );
}

#[test]
fn parse_refuses_what_is_never_written() {
    for text in [
        "",
        "Nil",
        "nil ",
        " nil",
        "nul",
        "TRUE",
        "tru",
        "truee",
        "fals",
        "falsy",
        "1.5",
        "0x",
        "0x3ff8",
        "0x3ff800000000000",
        "0x3ff80000000000000",
        "0X3ff8000000000000",
        "1x3ff8000000000000",
        "0x3FF8000000000000",
        "0x3ff800000000000g",
        "0x3ff8000000000 00",
        "0xé3ff80000000000",
        "éééééééééééééééééé",
    ] {
        assert_eq!(Value::parse(text), None, "{text:?}");
    }
}
