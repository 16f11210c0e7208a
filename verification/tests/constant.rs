use luau_lifter::constant::{Constant, CONSTANT_INTEGER, CONSTANT_TABLE_WITH_CONSTANTS};
use luau_lifter::error::{ParseError, ParseErrorKind};

fn encode_varint(mut value: u64) -> Vec<u8> {
    let mut result = Vec::new();
    loop {
        let mut byte = (value & 0x7f) as u8;
        value >>= 7;
        if value != 0 {
            byte |= 0x80;
        }
        result.push(byte);
        if value == 0 {
            return result;
        }
    }
}

#[test]
fn parses_prefilled_table_template() {
    let mut input = vec![CONSTANT_TABLE_WITH_CONSTANTS, 2, 1];
    input.extend_from_slice(&3i32.to_le_bytes());
    input.push(2);
    input.extend_from_slice(&(-1i32).to_le_bytes());

    let (remaining, constant) = Constant::parse(&input).unwrap();
    assert!(remaining.is_empty());
    assert_eq!(
        constant,
        Constant::TableWithConstants(vec![(1, Some(3)), (2, None)])
    );
}

#[test]
fn parses_full_integer_range() {
    for (value, sign, magnitude) in [
        (i64::MAX, 0, i64::MAX as u64),
        (-42, 1, 42),
        (i64::MIN, 1, 1u64 << 63),
    ] {
        let mut input = vec![CONSTANT_INTEGER, sign];
        input.extend(encode_varint(magnitude));

        let (remaining, constant) = Constant::parse(&input).unwrap();
        assert!(remaining.is_empty());
        assert_eq!(constant, Constant::Integer(value));
    }
}

#[test]
fn rejects_unknown_constant_tags_without_panicking() {
    let result = Constant::parse(&[u8::MAX]);
    assert!(result.is_err());
    assert_eq!(
        result.unwrap_err(),
        ParseError::Failure { offset: 1, kind: ParseErrorKind::Alt }
    );
}

#[test]
fn rejects_integers_out_of_range() {
    // positive magnitude 2^63
    let mut input = vec![CONSTANT_INTEGER, 0];
    input.extend(encode_varint(1u64 << 63));
    assert_eq!(
        Constant::parse(&input).unwrap_err(),
        ParseError::Failure { offset: input.len(), kind: ParseErrorKind::Verify }
    );
    // negative magnitude 2^63 + 1
    let mut input = vec![CONSTANT_INTEGER, 1];
    input.extend(encode_varint((1u64 << 63) + 1));
    assert_eq!(
        Constant::parse(&input).unwrap_err(),
        ParseError::Failure { offset: input.len(), kind: ParseErrorKind::Verify }
    );
    // sign byte other than 0 or 1
    assert_eq!(
        Constant::parse(&[CONSTANT_INTEGER, 2, 1]).unwrap_err(),
        ParseError::Failure { offset: 2, kind: ParseErrorKind::Verify }
    );
}

#[test]
fn parses_scalar_constants() {
    assert_eq!(Constant::parse(&[0]).unwrap().1, Constant::Nil);
    assert_eq!(Constant::parse(&[1, 2]).unwrap().1, Constant::Boolean(true));
    assert_eq!(Constant::parse(&[1, 0]).unwrap().1, Constant::Boolean(false));
    let mut number = vec![2];
    number.extend_from_slice(&1.5f64.to_le_bytes());
    assert_eq!(Constant::parse(&number).unwrap().1, Constant::Number(1.5f64.to_bits()));
    assert_eq!(Constant::parse(&[3, 0x80, 0x01]).unwrap().1, Constant::String(128));
    assert_eq!(Constant::parse(&[4, 1, 2, 3, 4]).unwrap().1, Constant::Import(0x0403_0201));
    assert_eq!(Constant::parse(&[5, 2, 7, 9]).unwrap().1, Constant::Table(vec![7, 9]));
    assert_eq!(Constant::parse(&[6, 5]).unwrap().1, Constant::Closure(5));
    let mut vector = vec![7];
    for v in [1.0f32, 2.0, 3.0, 0.5] {
        vector.extend_from_slice(&v.to_le_bytes());
    }
    assert_eq!(
        Constant::parse(&vector).unwrap().1,
        Constant::Vector(1.0f32.to_bits(), 2.0f32.to_bits(), 3.0f32.to_bits(), 0.5f32.to_bits())
    );
}

#[test]
fn reports_short_input() {
    assert_eq!(
        Constant::parse(&[]).unwrap_err(),
        ParseError::Error { offset: 0, kind: ParseErrorKind::Eof }
    );
    assert_eq!(
        Constant::parse(&[2, 0, 0]).unwrap_err(),
        ParseError::Error { offset: 1, kind: ParseErrorKind::Eof }
    );
    assert_eq!(Constant::parse(&[3, 0x80]).unwrap_err(), ParseError::Incomplete);
    let mut too_long = vec![3];
    too_long.extend_from_slice(&[0xff; 10]);
    assert_eq!(
        Constant::parse(&too_long).unwrap_err(),
        ParseError::Error { offset: 1, kind: ParseErrorKind::TooLarge }
    );
}

#[test]
fn numbers_compare_as_floats() {
    let zero = Constant::Number(0.0f64.to_bits());
    let negative_zero = Constant::Number((-0.0f64).to_bits());
    assert_eq!(zero, negative_zero);
    let nan = Constant::Number(f64::NAN.to_bits());
    assert_ne!(nan, nan.clone());
    assert_ne!(Constant::Number(1.0f64.to_bits()), Constant::Number(2.0f64.to_bits()));
    let v = |x: f32| Constant::Vector(x.to_bits(), 1.0f32.to_bits(), 2.0f32.to_bits(), 3.0f32.to_bits());
    assert_eq!(v(0.0), v(-0.0));
    assert_ne!(v(f32::NAN), v(f32::NAN));
    assert_eq!(Constant::Table(vec![1, 2]), Constant::Table(vec![1, 2]));
    assert_ne!(Constant::Table(vec![1, 2]), Constant::Table(vec![1]));
    assert_ne!(
        Constant::TableWithConstants(vec![(1, None)]),
        Constant::TableWithConstants(vec![(1, Some(0))])
    );
}
