use vstd::prelude::*;

verus! {

/// One of the metadata fields a server may put in front of an object's
/// visible fields, in the fixed order `Tid`, `Tname`, `Id`.
#[derive(Debug, Clone, Copy, PartialEq, Eq, Structural)]
pub enum ImplicitKind {
    Tid,
    Tname,
    Id,
}

/// The scalar types a target field can be decoded as.
#[derive(Debug, Clone, Copy, PartialEq, Eq, Structural)]
pub enum ScalarType {
    Str,
    Int16,
    Int32,
    Bool,
    Uuid,
    /// The text of a JSON document.
    Json,
    /// A JSON document holding one object whose values are all strings.
    JsonStringMap,
}

/// What a shape check expected to find at a descriptor position.
#[derive(Debug, Clone, Copy, PartialEq, Eq, Structural)]
pub enum ExpectedType {
    Object,
    Scalar(ScalarType),
}

/// Why a server-reported shape does not fit a target type.
#[derive(Debug, Clone, PartialEq, Eq)]
#[allow(inconsistent_fields)]
pub enum DescriptorMismatch {
    /// A type position that names no descriptor of the catalog, or a chain of
    /// scalar descriptors that never reaches a base scalar.
    BadPosition { type_pos: u16 },
    WrongType { type_pos: u16, expected: ExpectedType },
    ExpectedImplicit(ImplicitKind),
    WrongField { unexpected: String, expected: String },
    FieldCountMismatch { actual: usize, expected: usize },
}

/// What a shape mismatch says, with names as character sequences.
pub enum MismatchModel {
    BadPosition { type_pos: u16 },
    WrongType { type_pos: u16, expected: ExpectedType },
    ExpectedImplicit(ImplicitKind),
    WrongField { unexpected: Seq<char>, expected: Seq<char> },
    FieldCountMismatch { actual: usize, expected: usize },
}

impl View for DescriptorMismatch {
    type V = MismatchModel;

    open spec fn view(&self) -> MismatchModel {
        match self {
            DescriptorMismatch::BadPosition { type_pos } => MismatchModel::BadPosition { type_pos: *type_pos },
            DescriptorMismatch::WrongType { type_pos, expected } => MismatchModel::WrongType {
                type_pos: *type_pos,
                expected: *expected,
            },
            DescriptorMismatch::ExpectedImplicit(k) => MismatchModel::ExpectedImplicit(*k),
            DescriptorMismatch::WrongField { unexpected, expected } => MismatchModel::WrongField {
                unexpected: unexpected@,
                expected: expected@,
            },
            DescriptorMismatch::FieldCountMismatch { actual, expected } => MismatchModel::FieldCountMismatch {
                actual: *actual,
                expected: *expected,
            },
        }
    }
}

pub open spec fn check_view(r: Result<(), DescriptorMismatch>) -> Result<(), MismatchModel> {
    match r {
        Ok(()) => Ok(()),
        Err(e) => Err(e@),
    }
}

/// Why a row could not be decoded.
#[derive(Debug, Clone, Copy, PartialEq, Eq, Structural)]
pub enum DecodeError {
    /// The bytes end before a header, element or value does.
    Underflow,
    /// Bytes remain after the last element or inside a fixed-size value.
    TrailingData,
    /// The element count in the header is not the one expected.
    SizeMismatch,
    /// A read after the declared element count was used up.
    UnexpectedEnd,
    /// A negative element length other than the absence marker.
    InvalidMarker,
    MissingRequiredField,
    InvalidUtf8,
    InvalidBool,
    /// The version byte of a JSON-wrapped value is not the supported one.
    InvalidJsonFormat,
    /// JSON text that is not of the shape the field asks for.
    InvalidJson,
}

} // verus!
