use vstd::prelude::*;
use vstd::pervasive::unreached;
use crate::context::DecodeContext;
use crate::error::{DecodeError, ScalarType};
use crate::scalar::{
    bool_of, decode_bool, decode_i16, decode_i32, decode_json_string_map, decode_json_text, decode_str, decode_uuid,
    i16_of, i32_of, json_string_map_of, json_text_of, pairs_view, JSON_FORMAT_VERSION, str_of, uuid_of,
};
use crate::shape::{decls_of, FieldDecl, TargetField};
use crate::wire::{opt_bytes, opt_bytes_seq, read_object, visible_elements};

verus! {

/// A decoded field value.
#[derive(Debug, Clone)]
pub enum FieldValue {
    Str(String),
    Int16(i16),
    Int32(i32),
    Bool(bool),
    /// The sixteen bytes of an object id.
    Uuid(Vec<u8>),
    /// The text of a JSON document.
    Json(String),
    /// The pairs of a JSON object of strings, in key order.
    JsonStringMap(Vec<(String, String)>),
    /// An absent element of an optional field.
    Absent,
}

/// What a decoded field value stands for.
pub enum FieldModel {
    Str(Seq<char>),
    Int16(i16),
    Int32(i32),
    Bool(bool),
    Uuid(Seq<u8>),
    Json(Seq<char>),
    JsonStringMap(Seq<(Seq<char>, Seq<char>)>),
    Absent,
}

impl View for FieldValue {
    type V = FieldModel;

    open spec fn view(&self) -> FieldModel {
        match self {
            FieldValue::Str(s) => FieldModel::Str(s@),
            FieldValue::Int16(v) => FieldModel::Int16(*v),
            FieldValue::Int32(v) => FieldModel::Int32(*v),
            FieldValue::Bool(v) => FieldModel::Bool(*v),
            FieldValue::Uuid(b) => FieldModel::Uuid(b@),
            FieldValue::Json(t) => FieldModel::Json(t@),
            FieldValue::JsonStringMap(m) => FieldModel::JsonStringMap(pairs_view(m@)),
            FieldValue::Absent => FieldModel::Absent,
        }
    }
}

pub open spec fn values_view(v: Seq<FieldValue>) -> Seq<FieldModel> {
    v.map_values(|f: FieldValue| f@)
}

/// The value of a field of type `ty` held by the element `el`. An absent
/// element is the absence value of an optional field and an error for any
/// other field.
pub open spec fn field_of(ty: ScalarType, optional: bool, el: Option<Seq<u8>>) -> Result<FieldModel, DecodeError> {
    match el {
        None => if optional {
            Ok(FieldModel::Absent)
        } else {
            Err(DecodeError::MissingRequiredField)
        },
        Some(b) => match ty {
            ScalarType::Str => match str_of(b) {
                Ok(s) => Ok(FieldModel::Str(s)),
                Err(e) => Err(e),
            },
            ScalarType::Int16 => match i16_of(b) {
                Ok(v) => Ok(FieldModel::Int16(v)),
                Err(e) => Err(e),
            },
            ScalarType::Int32 => match i32_of(b) {
                Ok(v) => Ok(FieldModel::Int32(v)),
                Err(e) => Err(e),
            },
            ScalarType::Bool => match bool_of(b) {
                Ok(v) => Ok(FieldModel::Bool(v)),
                Err(e) => Err(e),
            },
            ScalarType::Uuid => match uuid_of(b) {
                Ok(v) => Ok(FieldModel::Uuid(v)),
                Err(e) => Err(e),
            },
            ScalarType::Json => match json_text_of(b) {
                Ok(t) => Ok(FieldModel::Json(t)),
                Err(e) => Err(e),
            },
            ScalarType::JsonStringMap => match json_string_map_of(b) {
                Ok(m) => Ok(FieldModel::JsonStringMap(m)),
                Err(e) => Err(e),
            },
        },
    }
}

/// The values of the first `n` fields, decoded in order; the first failure
/// wins.
pub open spec fn values_of(fields: Seq<FieldDecl>, els: Seq<Option<Seq<u8>>>, n: nat) -> Result<
    Seq<FieldModel>,
    DecodeError,
>
    decreases n,
{
    if n == 0 {
        Ok(Seq::empty())
    } else {
        match values_of(fields, els, (n - 1) as nat) {
            Err(e) => Err(e),
            Ok(vs) => match field_of(fields[n - 1].ty, fields[n - 1].optional, els[n - 1]) {
                Err(e) => Err(e),
                Ok(v) => Ok(vs.push(v)),
            },
        }
    }
}

/// The field values of the object in `b`, for a target type that declares
/// `fields`: the whole object is read and checked first, then each field is
/// decoded in order.
pub open spec fn object_values(ctx: DecodeContext, b: Seq<u8>, fields: Seq<FieldDecl>) -> Result<
    Seq<FieldModel>,
    DecodeError,
> {
    match visible_elements(ctx, b, fields.len()) {
        Err(e) => Err(e),
        Ok(els) => values_of(fields, els, fields.len()),
    }
}

/// An absent element gives the absence value for an optional field, and a
/// missing-field error for a required field of the same type.
pub proof fn absent_element(ty: ScalarType)
    ensures
        field_of(ty, true, None) == Ok::<FieldModel, DecodeError>(FieldModel::Absent),
        field_of(ty, false, None) == Err::<FieldModel, DecodeError>(DecodeError::MissingRequiredField),
{
}

/// A JSON-wrapped element whose version byte is not the supported one fails
/// on that byte, whatever text follows it and whether or not the field is
/// optional.
pub proof fn json_version_checked_first(ty: ScalarType, optional: bool, b: Seq<u8>)
    requires
        ty == ScalarType::Json || ty == ScalarType::JsonStringMap,
        b.len() >= 1,
        b[0] != JSON_FORMAT_VERSION,
    ensures
        field_of(ty, optional, Some(b)) == Err::<FieldModel, DecodeError>(DecodeError::InvalidJsonFormat),
{
}

/// Decodes one element as a value of the field `f`.
pub fn decode_field(f: &TargetField, el: Option<&[u8]>) -> (r: Result<FieldValue, DecodeError>)
    ensures
        match field_of(f.ty, f.optional, opt_bytes(el)) {
            Ok(m) => r matches Ok(v) && v@ == m,
            Err(e) => r == Err::<FieldValue, DecodeError>(e),
        },
{
    match el {
        None => if f.optional {
            Ok(FieldValue::Absent)
        } else {
            Err(DecodeError::MissingRequiredField)
        },
        Some(b) => match f.ty {
            ScalarType::Str => match decode_str(b) {
                Ok(s) => Ok(FieldValue::Str(s)),
                Err(e) => Err(e),
            },
            ScalarType::Int16 => match decode_i16(b) {
                Ok(v) => Ok(FieldValue::Int16(v)),
                Err(e) => Err(e),
            },
            ScalarType::Int32 => match decode_i32(b) {
                Ok(v) => Ok(FieldValue::Int32(v)),
                Err(e) => Err(e),
            },
            ScalarType::Bool => match decode_bool(b) {
                Ok(v) => Ok(FieldValue::Bool(v)),
                Err(e) => Err(e),
            },
            ScalarType::Uuid => match decode_uuid(b) {
                Ok(v) => Ok(FieldValue::Uuid(v)),
                Err(e) => Err(e),
            },
            ScalarType::Json => match decode_json_text(b) {
                Ok(t) => Ok(FieldValue::Json(t)),
                Err(e) => Err(e),
            },
            ScalarType::JsonStringMap => match decode_json_string_map(b) {
                Ok(m) => Ok(FieldValue::JsonStringMap(m)),
                Err(e) => Err(e),
            },
        },
    }
}

proof fn lemma_values_error_persists(fields: Seq<FieldDecl>, els: Seq<Option<Seq<u8>>>, m: nat, n: nat)
    requires
        m <= n,
        values_of(fields, els, m) is Err,
    ensures
        values_of(fields, els, n) == values_of(fields, els, m),
    decreases n - m,
{
    if m < n {
        lemma_values_error_persists(fields, els, m, (n - 1) as nat);
    }
}

/// Decodes the object in `buf` for a target type that declares `fields`:
/// skips the implicit elements of `ctx`, then decodes one element per field in
/// declaration order. Either every field decodes or the first failure is
/// returned.
pub fn decode_object(ctx: &DecodeContext, buf: &[u8], fields: &Vec<TargetField>) -> (r: Result<
    Vec<FieldValue>,
    DecodeError,
>)
    requires
        fields@.len() + 3 <= usize::MAX,
    ensures
        match object_values(*ctx, buf@, decls_of(fields@)) {
            Ok(vs) => r matches Ok(v) && values_view(v@) == vs,
            Err(e) => r == Err::<Vec<FieldValue>, DecodeError>(e),
        },
{
    let n = fields.len();
    let els = match read_object(ctx, buf, n) {
        Ok(v) => v,
        Err(e) => return Err(e),
    };
    let ghost ge = opt_bytes_seq(els@);
    assert(ge.len() == n);
    let mut out: Vec<FieldValue> = Vec::new();
    let mut i: usize = 0;
    assert(values_view(out@) =~= Seq::<FieldModel>::empty());
    while i < n
        invariant
            i <= n,
            n == fields@.len(),
            els@.len() == n,
            ge == opt_bytes_seq(els@),
            visible_elements(*ctx, buf@, n as nat) == Ok::<Seq<Option<Seq<u8>>>, DecodeError>(ge),
            values_of(decls_of(fields@), ge, i as nat) == Ok::<Seq<FieldModel>, DecodeError>(values_view(out@)),
        decreases n - i,
    {
        assert(ge[i as int] == opt_bytes(els@[i as int]));
        match decode_field(&fields[i], els[i]) {
            Err(e) => {
                proof {
                    lemma_values_error_persists(decls_of(fields@), ge, (i + 1) as nat, n as nat);
                }
                return Err(e);
            },
            Ok(v) => {
                let ghost before = out@;
                out.push(v);
                assert(values_view(out@) =~= values_view(before).push(v@));
            },
        }
        i = i + 1;
    }
    Ok(out)
}

/// A successful decoding holds one value per field, each the value of its
/// own element.
pub proof fn lemma_values_of_each(fields: Seq<FieldDecl>, els: Seq<Option<Seq<u8>>>, n: nat)
    requires
        values_of(fields, els, n) is Ok,
    ensures
        values_of(fields, els, n)->Ok_0.len() == n,
        forall|i: int|
            0 <= i < n ==> field_of(fields[i].ty, fields[i].optional, els[i]) == Ok::<FieldModel, DecodeError>(
                #[trigger] values_of(fields, els, n)->Ok_0[i],
            ),
    decreases n,
{
    if n > 0 {
        lemma_values_of_each(fields, els, (n - 1) as nat);
    }
}

/// Takes the last value out of `vals`.
pub(crate) fn take_last(vals: &mut Vec<FieldValue>) -> (r: FieldValue)
    requires
        old(vals)@.len() > 0,
    ensures
        r == old(vals)@.last(),
        final(vals)@ == old(vals)@.drop_last(),
{
    match vals.pop() {
        Some(v) => v,
        None => unreached(),
    }
}

pub(crate) fn into_str(v: FieldValue) -> (r: String)
    requires
        v@ is Str,
    ensures
        v@ == FieldModel::Str(r@),
{
    match v {
        FieldValue::Str(s) => s,
        _ => unreached(),
    }
}

pub(crate) fn into_i16(v: FieldValue) -> (r: i16)
    requires
        v@ is Int16,
    ensures
        v@ == FieldModel::Int16(r),
{
    match v {
        FieldValue::Int16(x) => x,
        _ => unreached(),
    }
}

pub(crate) fn into_i32(v: FieldValue) -> (r: i32)
    requires
        v@ is Int32,
    ensures
        v@ == FieldModel::Int32(r),
{
    match v {
        FieldValue::Int32(x) => x,
        _ => unreached(),
    }
}

pub(crate) fn into_bool(v: FieldValue) -> (r: bool)
    requires
        v@ is Bool,
    ensures
        v@ == FieldModel::Bool(r),
{
    match v {
        FieldValue::Bool(x) => x,
        _ => unreached(),
    }
}

pub(crate) fn into_uuid(v: FieldValue) -> (r: Vec<u8>)
    requires
        v@ is Uuid,
    ensures
        v@ == FieldModel::Uuid(r@),
{
    match v {
        FieldValue::Uuid(b) => b,
        _ => unreached(),
    }
}

pub(crate) fn into_json_string_map(v: FieldValue) -> (r: Vec<(String, String)>)
    requires
        v@ is JsonStringMap,
    ensures
        v@ == FieldModel::JsonStringMap(pairs_view(r@)),
{
    match v {
        FieldValue::JsonStringMap(m) => m,
        _ => unreached(),
    }
}

} // verus!
