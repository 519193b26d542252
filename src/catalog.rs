use vstd::prelude::*;
use crate::error::{check_view, DescriptorMismatch, ExpectedType, MismatchModel, ScalarType};

verus! {

/// One field of an object shape, as the server reports it.
#[derive(Debug, Clone)]
pub struct ShapeElement {
    pub name: String,
    pub type_pos: u16,
    pub flag_implicit: bool,
}

/// A type descriptor. Descriptors name one another by their position in the
/// catalog they belong to.
#[derive(Debug, Clone)]
pub enum Descriptor {
    BaseScalar { id: u128 },
    Scalar { base_type_pos: u16 },
    ObjectShape { elements: Vec<ShapeElement> },
    Tuple { element_types: Vec<u16> },
    Array { type_pos: u16 },
    SetOf { type_pos: u16 },
    /// A kind of descriptor that no target type here asks for.
    Other,
}

/// The descriptors of one query result, addressed by position.
#[derive(Debug, Clone)]
pub struct Catalog {
    pub descriptors: Vec<Descriptor>,
}

pub const STD_UUID_ID: u128 = 0x100;

pub const STD_STR_ID: u128 = 0x101;

pub const STD_INT16_ID: u128 = 0x103;

pub const STD_INT32_ID: u128 = 0x104;

pub const STD_BOOL_ID: u128 = 0x109;

pub const STD_JSON_ID: u128 = 0x10f;

/// The id of the base scalar type that a field of type `t` is decoded from.
pub open spec fn base_scalar_id(t: ScalarType) -> u128 {
    match t {
        ScalarType::Str => STD_STR_ID,
        ScalarType::Int16 => STD_INT16_ID,
        ScalarType::Int32 => STD_INT32_ID,
        ScalarType::Bool => STD_BOOL_ID,
        ScalarType::Uuid => STD_UUID_ID,
        ScalarType::Json => STD_JSON_ID,
        ScalarType::JsonStringMap => STD_JSON_ID,
    }
}

/// The id of the base scalar type that a field of type `t` is decoded from.
pub fn scalar_id(t: ScalarType) -> (r: u128)
    ensures
        r == base_scalar_id(t),
{
    match t {
        ScalarType::Str => STD_STR_ID,
        ScalarType::Int16 => STD_INT16_ID,
        ScalarType::Int32 => STD_INT32_ID,
        ScalarType::Bool => STD_BOOL_ID,
        ScalarType::Uuid => STD_UUID_ID,
        ScalarType::Json => STD_JSON_ID,
        ScalarType::JsonStringMap => STD_JSON_ID,
    }
}

/// Whether the descriptor at `pos` is a scalar of type `t`: scalar descriptors
/// are followed to their base, at most `fuel` times; a longer chain runs in a
/// circle and names no type.
pub open spec fn scalar_check(d: Seq<Descriptor>, pos: u16, t: ScalarType, fuel: nat) -> Result<
    (),
    MismatchModel,
>
    decreases fuel,
{
    if pos >= d.len() {
        Err(MismatchModel::BadPosition { type_pos: pos })
    } else {
        match d[pos as int] {
            Descriptor::Scalar { base_type_pos } => if fuel == 0 {
                Err(MismatchModel::BadPosition { type_pos: pos })
            } else {
                scalar_check(d, base_type_pos, t, (fuel - 1) as nat)
            },
            Descriptor::BaseScalar { id } => if id == base_scalar_id(t) {
                Ok(())
            } else {
                Err(MismatchModel::WrongType { type_pos: pos, expected: ExpectedType::Scalar(t) })
            },
            _ => Err(MismatchModel::WrongType { type_pos: pos, expected: ExpectedType::Scalar(t) }),
        }
    }
}

impl Catalog {
    /// The descriptor at `pos`.
    pub fn get(&self, pos: u16) -> (r: Result<&Descriptor, DescriptorMismatch>)
        ensures
            pos < self.descriptors@.len() ==> (r matches Ok(d) && *d == self.descriptors@[pos as int]),
            pos >= self.descriptors@.len() ==> r == Err::<&Descriptor, DescriptorMismatch>(
                DescriptorMismatch::BadPosition { type_pos: pos },
            ),
    {
        if (pos as usize) < self.descriptors.len() {
            Ok(&self.descriptors[pos as usize])
        } else {
            Err(DescriptorMismatch::BadPosition { type_pos: pos })
        }
    }

    fn check_scalar_from(&self, pos: u16, t: ScalarType, fuel: usize) -> (r: Result<(), DescriptorMismatch>)
        ensures
            check_view(r) == scalar_check(self.descriptors@, pos, t, fuel as nat),
        decreases fuel,
    {
        let desc = match self.get(pos) {
            Ok(d) => d,
            Err(e) => return Err(e),
        };
        match desc {
            Descriptor::Scalar { base_type_pos } => if fuel == 0 {
                Err(DescriptorMismatch::BadPosition { type_pos: pos })
            } else {
                self.check_scalar_from(*base_type_pos, t, fuel - 1)
            },
            Descriptor::BaseScalar { id } => if *id == scalar_id(t) {
                Ok(())
            } else {
                Err(DescriptorMismatch::WrongType { type_pos: pos, expected: ExpectedType::Scalar(t) })
            },
            _ => Err(DescriptorMismatch::WrongType { type_pos: pos, expected: ExpectedType::Scalar(t) }),
        }
    }

    /// Checks that the descriptor at `pos` is a scalar of type `t`.
    pub fn check_scalar(&self, pos: u16, t: ScalarType) -> (r: Result<(), DescriptorMismatch>)
        ensures
            check_view(r) == scalar_check(self.descriptors@, pos, t, self.descriptors@.len()),
    {
        self.check_scalar_from(pos, t, self.descriptors.len())
    }
}

} // verus!
