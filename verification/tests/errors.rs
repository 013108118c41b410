use defiant::enumeration::{check_enumeration_shape, EnumerationShapeError, ItemKind, VariantShape};
use defiant::error::DecodeError;
use defiant::wire_type::WireType;

#[test]
fn decode_error_descriptions() {
    assert_eq!(DecodeError::InvalidTag.description(), "invalid tag value: 0");
    assert_eq!(DecodeError::BufferUnderflow.description(), "buffer underflow");
    assert_eq!(DecodeError::DelimitedLengthExceeded.description(), "delimited length exceeded");
    assert_eq!(DecodeError::RecursionLimitReached.description(), "recursion limit reached");
    assert_eq!(DecodeError::UnexpectedEndGroupTag.description(), "unexpected end group tag");
    assert_eq!(DecodeError::InvalidVarint.description(), "invalid varint");
    assert_eq!(DecodeError::InvalidKey(4294967296).description(), "invalid key value: 4294967296");
    assert_eq!(DecodeError::InvalidWireType(7).description(), "invalid wire type value: 7");
    assert_eq!(
        DecodeError::InvalidUtf8.description(),
        "invalid string value: data is not UTF-8 encoded"
    );
    assert_eq!(
        DecodeError::WireTypeMismatch { expected: WireType::Varint, actual: WireType::LengthDelimited }
            .description(),
        "invalid wire type: LengthDelimited (expected Varint)"
    );
    assert_eq!(
        DecodeError::LengthDelimiterTooLarge.description(),
        "length delimiter exceeds maximum usize value"
    );
}

fn unit(has_discriminant: bool) -> VariantShape {
    VariantShape { has_fields: false, has_discriminant }
}

#[test]
fn enumeration_shapes() {
    assert_eq!(check_enumeration_shape(ItemKind::Enum, &[unit(true), unit(true)]), Ok(()));
    let struct_err = check_enumeration_shape(ItemKind::Struct, &[]).unwrap_err();
    assert_eq!(struct_err.text(), "Enumeration can not be derived for a struct");
    let union_err = check_enumeration_shape(ItemKind::Union, &[]).unwrap_err();
    assert_eq!(union_err.text(), "Enumeration can not be derived for a union");
    let fields = VariantShape { has_fields: true, has_discriminant: false };
    let err = check_enumeration_shape(ItemKind::Enum, &[unit(true), fields, unit(false)]).unwrap_err();
    assert_eq!(err, EnumerationShapeError::VariantFields);
    assert_eq!(err.text(), "Enumeration variants may not have fields");
    let err = check_enumeration_shape(ItemKind::Enum, &[unit(true), unit(false)]).unwrap_err();
    assert_eq!(err.text(), "Enumeration variants must have a discriminant");
}
