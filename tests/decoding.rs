use edgedb_client_example::catalog::{
    Catalog, Descriptor, ShapeElement, STD_BOOL_ID, STD_INT16_ID, STD_INT32_ID, STD_JSON_ID, STD_STR_ID,
    STD_UUID_ID,
};
use edgedb_client_example::context::DecodeContext;
use edgedb_client_example::decode::{decode_field, decode_object, FieldValue};
use edgedb_client_example::error::{DecodeError, DescriptorMismatch, ExpectedType, ImplicitKind, ScalarType};
use edgedb_client_example::scalar::{
    decode_bool, decode_i16, decode_i32, decode_json_string_map, decode_json_text, decode_str, decode_uuid,
};
use edgedb_client_example::shape::{check_shape, TargetField};
use edgedb_client_example::wire::{read_object, ElementCursor};
use edgedb_client_example::{BankCustomer, InnerJsonQueryableAccount, IsAStruct, JsonQueryableAccount, QueryableAccount};

fn no_implicit() -> DecodeContext {
    DecodeContext { has_implicit_id: false, has_implicit_tid: false, has_implicit_tname: false }
}

fn object(elements: &[Option<&[u8]>]) -> Vec<u8> {
    let mut out = Vec::new();
    out.extend_from_slice(&(elements.len() as u32).to_be_bytes());
    for el in elements {
        out.extend_from_slice(&[0, 0, 0, 0]);
        match el {
            Some(b) => {
                out.extend_from_slice(&(b.len() as i32).to_be_bytes());
                out.extend_from_slice(b);
            }
            None => out.extend_from_slice(&(-1i32).to_be_bytes()),
        }
    }
    out
}

fn element(name: &str, type_pos: u16, flag_implicit: bool) -> ShapeElement {
    ShapeElement { name: name.to_string(), type_pos, flag_implicit }
}

fn field(name: &str, ty: ScalarType) -> TargetField {
    TargetField { name: name.to_string(), ty, optional: false }
}

/// Positions: 0 str, 1 uuid, 2 int16, 3 bool, 4 int32, 5 json, 6 the shape.
fn catalog(elements: Vec<ShapeElement>) -> Catalog {
    Catalog {
        descriptors: vec![
            Descriptor::BaseScalar { id: STD_STR_ID },
            Descriptor::BaseScalar { id: STD_UUID_ID },
            Descriptor::BaseScalar { id: STD_INT16_ID },
            Descriptor::BaseScalar { id: STD_BOOL_ID },
            Descriptor::BaseScalar { id: STD_INT32_ID },
            Descriptor::BaseScalar { id: STD_JSON_ID },
            Descriptor::ObjectShape { elements },
        ],
    }
}

const ID: [u8; 16] = [0x10, 0x94, 0xb0, 0x32, 0xd8, 0xe7, 0x11, 0xed, 0xac, 0xbd, 0xab, 0xc1, 0x44, 0x9f, 0xfb, 0x3b];

#[test]
fn wrong_field_order_is_reported_at_first_position() {
    let cat = catalog(vec![element("id", 1, false), element("username", 0, false)]);
    let r = QueryableAccount::check_descriptor(&cat, &no_implicit(), 6);
    assert_eq!(
        r,
        Err(DescriptorMismatch::WrongField { unexpected: "id".to_string(), expected: "username".to_string() })
    );
    let ok = catalog(vec![element("username", 0, false), element("id", 1, false)]);
    assert_eq!(QueryableAccount::check_descriptor(&ok, &no_implicit(), 6), Ok(()));
}

#[test]
fn implicit_prefix_is_skipped() {
    let ctx = DecodeContext { has_implicit_id: true, has_implicit_tid: true, has_implicit_tname: false };
    let cat = catalog(vec![
        element("__tid__", 1, true),
        element("id", 1, true),
        element("username", 0, false),
        element("number", 2, false),
    ]);
    let fields = vec![field("username", ScalarType::Str), field("number", ScalarType::Int16)];
    assert_eq!(check_shape(&cat, &ctx, 6, &fields), Ok(()));
    let buf = object(&[Some(&ID), Some(&ID), Some(b"alice"), Some(&[0, 7])]);
    let els = read_object(&ctx, &buf, 2).unwrap();
    assert_eq!(els, vec![Some(&b"alice"[..]), Some(&[0u8, 7][..])]);
    let vals = decode_object(&ctx, &buf, &fields).unwrap();
    assert_eq!(vals.len(), 2);
    assert!(matches!(&vals[0], FieldValue::Str(s) if s == "alice"));
    assert!(matches!(vals[1], FieldValue::Int16(7)));
}

#[test]
fn missing_implicit_field_is_reported() {
    let ctx = DecodeContext { has_implicit_id: true, has_implicit_tid: false, has_implicit_tname: false };
    let cat = catalog(vec![element("username", 0, false), element("number", 2, false)]);
    let fields = vec![field("username", ScalarType::Str), field("number", ScalarType::Int16)];
    assert_eq!(check_shape(&cat, &ctx, 6, &fields), Err(DescriptorMismatch::ExpectedImplicit(ImplicitKind::Id)));
}

#[test]
fn extra_shape_element_is_a_count_mismatch() {
    let cat = catalog(vec![
        element("name", 0, false),
        element("number", 2, false),
        element("is_cool", 3, false),
        element("extra", 0, false),
    ]);
    assert_eq!(
        IsAStruct::check_descriptor(&cat, &no_implicit(), 6),
        Err(DescriptorMismatch::FieldCountMismatch { actual: 4, expected: 3 })
    );
}

#[test]
fn short_shape_is_a_count_mismatch() {
    let cat = catalog(vec![element("name", 0, false), element("number", 2, false)]);
    assert_eq!(
        IsAStruct::check_descriptor(&cat, &no_implicit(), 6),
        Err(DescriptorMismatch::FieldCountMismatch { actual: 2, expected: 3 })
    );
}

#[test]
fn wrong_scalar_and_bad_positions() {
    let cat = catalog(vec![element("name", 0, false), element("number", 3, false), element("is_cool", 3, false)]);
    assert_eq!(
        IsAStruct::check_descriptor(&cat, &no_implicit(), 6),
        Err(DescriptorMismatch::WrongType { type_pos: 3, expected: ExpectedType::Scalar(ScalarType::Int16) })
    );
    assert_eq!(
        IsAStruct::check_descriptor(&cat, &no_implicit(), 0),
        Err(DescriptorMismatch::WrongType { type_pos: 0, expected: ExpectedType::Object })
    );
    assert_eq!(
        IsAStruct::check_descriptor(&cat, &no_implicit(), 40),
        Err(DescriptorMismatch::BadPosition { type_pos: 40 })
    );
    let dangling = catalog(vec![element("name", 9, false), element("number", 2, false), element("is_cool", 3, false)]);
    assert_eq!(
        IsAStruct::check_descriptor(&dangling, &no_implicit(), 6),
        Err(DescriptorMismatch::BadPosition { type_pos: 9 })
    );
}

#[test]
fn scalar_chains_are_followed_and_cycles_rejected() {
    let mut cat = catalog(vec![element("name", 7, false), element("bank_balance", 4, false)]);
    cat.descriptors.push(Descriptor::Scalar { base_type_pos: 0 });
    assert_eq!(BankCustomer::check_descriptor(&cat, &no_implicit(), 6), Ok(()));
    let mut looped = catalog(vec![element("name", 7, false), element("bank_balance", 4, false)]);
    looped.descriptors.push(Descriptor::Scalar { base_type_pos: 7 });
    assert_eq!(
        BankCustomer::check_descriptor(&looped, &no_implicit(), 6),
        Err(DescriptorMismatch::BadPosition { type_pos: 7 })
    );
}

#[test]
fn validator_runs_are_repeatable() {
    let cat = catalog(vec![element("id", 1, false), element("username", 0, false)]);
    let before = format!("{:?}", cat);
    let first = QueryableAccount::check_descriptor(&cat, &no_implicit(), 6);
    let second = QueryableAccount::check_descriptor(&cat, &no_implicit(), 6);
    assert_eq!(first, second);
    assert_eq!(before, format!("{:?}", cat));
}

#[test]
fn scalars_decode_at_their_bounds() {
    assert_eq!(decode_i16(&0i16.to_be_bytes()), Ok(0));
    assert_eq!(decode_i16(&i16::MAX.to_be_bytes()), Ok(i16::MAX));
    assert_eq!(decode_i16(&i16::MIN.to_be_bytes()), Ok(i16::MIN));
    assert_eq!(decode_i16(&[0xff, 0xff]), Ok(-1));
    assert_eq!(decode_i32(&0i32.to_be_bytes()), Ok(0));
    assert_eq!(decode_i32(&i32::MAX.to_be_bytes()), Ok(i32::MAX));
    assert_eq!(decode_i32(&i32::MIN.to_be_bytes()), Ok(i32::MIN));
    assert_eq!(decode_i32(&[0, 0, 1, 0x2c]), Ok(300));
    assert_eq!(decode_bool(&[0]), Ok(false));
    assert_eq!(decode_bool(&[1]), Ok(true));
    assert_eq!(decode_str("".as_bytes()), Ok(String::new()));
    assert_eq!(decode_str("Nice name".as_bytes()), Ok("Nice name".to_string()));
    assert_eq!(decode_str("größe ✓".as_bytes()), Ok("größe ✓".to_string()));
}

#[test]
fn scalar_errors() {
    assert_eq!(decode_i16(&[1]), Err(DecodeError::Underflow));
    assert_eq!(decode_i16(&[1, 2, 3]), Err(DecodeError::TrailingData));
    assert_eq!(decode_bool(&[2]), Err(DecodeError::InvalidBool));
    assert_eq!(decode_str(&[0xff, 0xfe]), Err(DecodeError::InvalidUtf8));
    assert_eq!(decode_uuid(&ID[..15]), Err(DecodeError::Underflow));
    assert_eq!(decode_uuid(&ID), Ok(ID.to_vec()));
}

#[test]
fn row_decodes_into_struct() {
    let buf = object(&[Some(b"Nice name"), Some(&10i16.to_be_bytes()), Some(&[1])]);
    let v = IsAStruct::decode(&no_implicit(), &buf).unwrap();
    assert_eq!(v.name, "Nice name");
    assert_eq!(v.number, 10);
    assert!(v.is_cool);
    let customer = object(&[Some(b"Customer_1"), Some(&110i32.to_be_bytes())]);
    let c = BankCustomer::decode(&no_implicit(), &customer).unwrap();
    assert_eq!(c.name, "Customer_1");
    assert_eq!(c.bank_balance, 110);
    let account = object(&[Some(b"h64HSxH8"), Some(&ID)]);
    let a = QueryableAccount::decode(&no_implicit(), &account).unwrap();
    assert_eq!(a.username, "h64HSxH8");
    assert_eq!(a.id, ID.to_vec());
}

#[test]
fn structural_errors() {
    let ctx = no_implicit();
    assert_eq!(IsAStruct::decode(&ctx, &[0, 0]).unwrap_err(), DecodeError::Underflow);
    let two = object(&[Some(b"a"), Some(&[0, 1])]);
    assert_eq!(IsAStruct::decode(&ctx, &two).unwrap_err(), DecodeError::SizeMismatch);
    let mut trailing = object(&[Some(b"a"), Some(&[0, 1]), Some(&[1])]);
    trailing.push(0);
    assert_eq!(IsAStruct::decode(&ctx, &trailing).unwrap_err(), DecodeError::TrailingData);
    let mut cut = object(&[Some(b"a"), Some(&[0, 1]), Some(&[1])]);
    cut.pop();
    assert_eq!(IsAStruct::decode(&ctx, &cut).unwrap_err(), DecodeError::Underflow);
    let mut marker = object(&[Some(b"a"), Some(&[0, 1]), None]);
    let at = marker.len() - 4;
    marker[at..].copy_from_slice(&(-2i32).to_be_bytes());
    assert_eq!(IsAStruct::decode(&ctx, &marker).unwrap_err(), DecodeError::InvalidMarker);
    let bad_bool = object(&[Some(b"a"), Some(&[0, 1]), Some(&[7])]);
    assert_eq!(IsAStruct::decode(&ctx, &bad_bool).unwrap_err(), DecodeError::InvalidBool);
}

#[test]
fn cursor_reads_skips_and_finishes() {
    let buf = object(&[Some(b"xy"), None]);
    let mut c = ElementCursor::open(&buf, 2).unwrap();
    assert_eq!(c.finish(), Err(DecodeError::Underflow));
    assert_eq!(c.skip_element(), Ok(()));
    assert_eq!(c.read(), Ok(None));
    assert_eq!(c.read(), Err(DecodeError::UnexpectedEnd));
    assert_eq!(c.skip_element(), Err(DecodeError::UnexpectedEnd));
    assert_eq!(c.finish(), Ok(()));
    assert!(ElementCursor::open(&buf, 3).is_err());
}

#[test]
fn absent_element_for_required_and_optional_fields() {
    let buf = object(&[None, Some(&[0, 1]), Some(&[1])]);
    assert_eq!(IsAStruct::decode(&no_implicit(), &buf).unwrap_err(), DecodeError::MissingRequiredField);
    let optional = TargetField { name: "name".to_string(), ty: ScalarType::Str, optional: true };
    assert!(matches!(decode_field(&optional, None), Ok(FieldValue::Absent)));
    let required = TargetField { name: "name".to_string(), ty: ScalarType::Str, optional: false };
    assert!(matches!(decode_field(&required, None), Err(DecodeError::MissingRequiredField)));
}

fn json_bytes(version: u8, text: &str) -> Vec<u8> {
    let mut b = vec![version];
    b.extend_from_slice(text.as_bytes());
    b
}

#[test]
fn json_field_decodes_to_mapping() {
    let json = json_bytes(1, r#"{"a":"1"}"#);
    let buf = object(&[Some(b"alice"), Some(&ID), Some(&json)]);
    let v = InnerJsonQueryableAccount::decode(&no_implicit(), &buf).unwrap();
    assert_eq!(v.username, "alice");
    assert_eq!(v.some_json, vec![("a".to_string(), "1".to_string())]);
    let two = json_bytes(1, r#"{"nice_user":"yes","bad_user":"no"}"#);
    assert_eq!(
        decode_json_string_map(&two),
        Ok(vec![("bad_user".to_string(), "no".to_string()), ("nice_user".to_string(), "yes".to_string())])
    );
}

#[test]
fn json_version_byte_is_checked_first() {
    let json = json_bytes(2, r#"{"a":"1"}"#);
    let buf = object(&[Some(b"alice"), Some(&ID), Some(&json)]);
    assert_eq!(InnerJsonQueryableAccount::decode(&no_implicit(), &buf).unwrap_err(), DecodeError::InvalidJsonFormat);
    assert_eq!(decode_json_text(&json), Err(DecodeError::InvalidJsonFormat));
    assert_eq!(decode_json_text(&[]), Err(DecodeError::Underflow));
}

#[test]
fn json_that_is_not_a_string_mapping() {
    assert_eq!(decode_json_string_map(&json_bytes(1, r#"{"a":1}"#)), Err(DecodeError::InvalidJson));
    assert_eq!(decode_json_string_map(&json_bytes(1, "not json")), Err(DecodeError::InvalidJson));
    assert_eq!(decode_json_string_map(&[1, 0xff]), Err(DecodeError::InvalidUtf8));
}

#[test]
fn whole_object_json_text() {
    let text = r#"{"username": "rUQdaH9T", "id": "1094b032-d8e7-11ed-acbd-abc1449ffb3b"}"#;
    assert_eq!(JsonQueryableAccount::decode_text(&json_bytes(1, text)), Ok(text.to_string()));
    let cat = catalog(vec![]);
    assert_eq!(JsonQueryableAccount::check_descriptor(&cat, 5), Ok(()));
    assert_eq!(
        JsonQueryableAccount::check_descriptor(&cat, 0),
        Err(DescriptorMismatch::WrongType { type_pos: 0, expected: ExpectedType::Scalar(ScalarType::Json) })
    );
}
