use cbl::decimal::Decimal;
use cbl::error::error;
use cbl::error::report;
use cbl::error::Error;

#[test]
fn parse_reads_digits_exactly() {
    let d = Decimal::parse("45.67").unwrap();
    assert_eq!(d.mantissa(), 4567);
    assert_eq!(d.scale(), 2);
    let d = Decimal::parse("0").unwrap();
    assert_eq!(d.mantissa(), 0);
    assert_eq!(d.scale(), 0);
}

#[test]
fn parse_normalizes_trailing_fraction_zeros() {
    let d = Decimal::parse("1.50").unwrap();
    assert_eq!(d.mantissa(), 15);
    assert_eq!(d.scale(), 1);
    let d = Decimal::parse("1.0").unwrap();
    assert_eq!(d.mantissa(), 1);
    assert_eq!(d.scale(), 0);
    let d = Decimal::parse("0.000").unwrap();
    assert_eq!(d.mantissa(), 0);
    assert_eq!(d.scale(), 0);
}

#[test]
fn parse_rejects_malformed_and_oversized_lexemes() {
    assert!(Decimal::parse("1.2.3").is_none());
    assert!(Decimal::parse("12a").is_none());
    assert!(Decimal::parse("1.").is_none());
    assert!(Decimal::parse("99999999999999999999999999999999999999999").is_none());
}

#[test]
fn to_text_renders_natural_decimal_form() {
    assert_eq!(Decimal::from_int(0).to_text(), "0");
    assert_eq!(Decimal::from_int(3).to_text(), "3");
    assert_eq!(Decimal::from_int(-4).to_text(), "-4");
    assert_eq!(Decimal::new(5, 1).to_text(), "0.5");
    assert_eq!(Decimal::new(5, 3).to_text(), "0.005");
    assert_eq!(Decimal::new(-4567, 2).to_text(), "-45.67");
    assert_eq!(Decimal::new(120, 1).to_text(), "12");
}

#[test]
fn one_value_has_one_representation() {
    assert_eq!(Decimal::new(10, 1), Decimal::new(1, 0));
    assert!(Decimal::new(500, 3).same_value(&Decimal::new(5, 1)));
}

#[test]
fn arithmetic_is_exact() {
    let a = Decimal::new(1, 1);
    let b = Decimal::new(2, 1);
    assert_eq!(a.add(&b).unwrap().to_text(), "0.3");
    assert_eq!(a.sub(&b).unwrap().to_text(), "-0.1");
    assert_eq!(a.mul(&b).unwrap().to_text(), "0.02");
    assert_eq!(a.div(&b).unwrap().to_text(), "0.5");
    assert_eq!(a.neg().to_text(), "-0.1");
    assert_eq!(Decimal::from_int(1).lt(&Decimal::new(11, 1)), Some(true));
    assert_eq!(Decimal::from_int(2).le(&Decimal::new(11, 1)), Some(false));
}

#[test]
fn diagnostic_lines_have_the_documented_shape() {
    assert_eq!(error(3, "Boom"), "[line 3] Error: Boom");
    assert_eq!(report(12, " at end", "Expect ';'."), "[line 12] Error at end: Expect ';'.");
}

#[test]
fn error_constructors_keep_their_messages() {
    let e = Error::new("bad token");
    assert!(!e.is_runtime());
    assert_eq!(e.message(), "bad token");
    let e = Error::parser_error("bad token");
    assert!(!e.is_runtime());
    let e = Error::runtime_error("bad value");
    assert!(e.is_runtime());
    assert_eq!(e.message(), "bad value");
}
