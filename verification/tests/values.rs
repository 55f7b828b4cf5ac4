use framedata::value::DataTypes;
use framedata::value::FloatType;
use framedata::value::IntegerType;
use framedata::value::StringType;
use framedata::textnum::parse_i64;
use framedata::textnum::int_to_decimal;

fn fv(x: f64) -> DataTypes {
    DataTypes::FloatType(FloatType { bits: x.to_bits() })
}

fn iv(x: i64) -> DataTypes {
    DataTypes::IntegerType(IntegerType { value: x })
}

fn sv(s: &str) -> DataTypes {
    DataTypes::StringType(StringType { value: s.to_string() })
}

fn float_bits(v: &DataTypes) -> u64 {
    match v {
        DataTypes::FloatType(f) => f.bits,
        _ => panic!("expected a float cell"),
    }
}

#[test]
fn parse_numeric_fields_become_floats() {
    for s in ["1", "2", "3", "-4", "2.5", "1e3"] {
        match DataTypes::parse(s) {
            DataTypes::FloatType(f) => {
                assert_eq!(f.bits, s.parse::<f64>().unwrap().to_bits());
            },
            _ => panic!("numeric field did not sniff as float"),
        }
    }
}

#[test]
fn parse_integer_branch_is_unreachable_for_plain_integers() {
    // Every syntactically valid integer is also a valid float literal,
    // so integer cells never arise from text ingestion.
    match DataTypes::parse("12") {
        DataTypes::FloatType(f) => assert_eq!(f.bits, 12.0f64.to_bits()),
        _ => panic!("integer-looking field did not sniff as float"),
    }
}

#[test]
fn parse_non_numeric_fields_stay_text() {
    match DataTypes::parse("hello") {
        DataTypes::StringType(s) => assert_eq!(s.value, "hello"),
        _ => panic!("text field did not stay text"),
    }
    match DataTypes::parse("") {
        DataTypes::StringType(s) => assert_eq!(s.value, ""),
        _ => panic!("empty field did not stay text"),
    }
}

fn decode_reference(val: f64) -> Vec<u64> {
    let bits: u64 = val.to_bits();
    let sign: i8 = if bits >> 63 == 0 { 1 } else { -1 };
    let mut exponent: i16 = ((bits >> 52) & 0x7ff) as i16;
    let mantissa = if exponent == 0 {
        (bits & 0xfffffffffffff) << 1
    } else {
        (bits & 0xfffffffffffff) | 0x10000000000000
    };
    exponent -= 1023 + 52;
    vec![mantissa, exponent as u64, sign as u64]
}

#[test]
fn integer_decode_matches_ieee_decomposition() {
    for v in [2.0f64, -0.5, 0.0, 1.5, 6.02e23, 5e-324, -1.0, f64::NAN, f64::INFINITY] {
        assert_eq!(FloatType::integer_decode(v.to_bits()), decode_reference(v));
    }
}

#[test]
fn fvalue_readings() {
    assert_eq!(float_bits(&fv(2.5)), 2.5f64.to_bits());
    assert_eq!(iv(5).fvalue(), 5.0f64.to_bits());
    assert_eq!(iv(-3).fvalue(), (-3.0f64).to_bits());
    assert_eq!(sv("x").fvalue(), f64::NAN.to_bits());
}

#[test]
fn ivalue_truncates_toward_zero() {
    assert_eq!(fv(5.9).ivalue(), 5);
    assert_eq!(fv(-5.9).ivalue(), -5);
    assert_eq!(fv(0.0).ivalue(), 0);
    assert_eq!(fv(f64::NAN).ivalue(), 0);
    assert_eq!(fv(1e300).ivalue(), i64::MAX);
    assert_eq!(fv(-1e300).ivalue(), i64::MIN);
    assert_eq!(iv(-7).ivalue(), -7);
}

#[test]
fn ivalue_of_equal_texts_agree() {
    assert_eq!(sv("abc").ivalue(), sv("abc").ivalue());
    assert_ne!(sv("abc").ivalue(), sv("abd").ivalue());
}

#[test]
fn svalue_renders_decimal() {
    assert_eq!(iv(-42).svalue(), "-42");
    assert_eq!(iv(0).svalue(), "0");
    assert_eq!(sv("S1").svalue(), "S1");
    assert_eq!(fv(2.5).svalue(), "2.5");
    assert_eq!(fv(1.0).svalue(), "1");
    assert_eq!(fv(-42.0).svalue(), "-42");
    assert_eq!(fv(f64::NAN).svalue(), "NaN");
}

#[test]
fn hash_is_consistent_with_equality() {
    assert_eq!(DataTypes::parse("3.5").hash64(), fv(3.5).hash64());
    assert_eq!(sv("key").hash64(), sv("key").hash64());
    assert_eq!(iv(9).hash64(), iv(9).hash64());
    assert_ne!(fv(1.0).hash64(), fv(2.0).hash64());
    assert_ne!(sv("a").hash64(), sv("b").hash64());
}

#[test]
fn parse_i64_accepts_signed_decimals() {
    assert_eq!(parse_i64("123"), Some(123));
    assert_eq!(parse_i64("+7"), Some(7));
    assert_eq!(parse_i64("-9223372036854775808"), Some(i64::MIN));
    assert_eq!(parse_i64("9223372036854775807"), Some(i64::MAX));
}

#[test]
fn parse_i64_rejects_garbage_and_overflow() {
    assert_eq!(parse_i64(""), None);
    assert_eq!(parse_i64("-"), None);
    assert_eq!(parse_i64("12a"), None);
    assert_eq!(parse_i64("9223372036854775808"), None);
    assert_eq!(parse_i64("-9223372036854775809"), None);
    assert_eq!(parse_i64("99999999999999999999999999"), None);
}

#[test]
fn int_to_decimal_round_trips() {
    assert_eq!(int_to_decimal(0), "0");
    assert_eq!(int_to_decimal(-42), "-42");
    assert_eq!(int_to_decimal(i64::MAX), i64::MAX.to_string());
    assert_eq!(int_to_decimal(i64::MIN), i64::MIN.to_string());
}
