//! Parameter sets: the GPU-visible fields of a material, in declaration order.

use vstd::prelude::*;

verus! {

/// Semantic type of a field.
#[derive(Clone, Copy, Debug, PartialEq, Eq, Structural)]
pub enum FieldKind {
    /// A 32-bit IEEE-754 number.
    Float,
    /// A 32-bit unsigned integer.
    Uint,
    /// Four 32-bit IEEE-754 numbers.
    Vector,
}

/// Current value of a field. Floating-point components are carried as their
/// IEEE-754 bit patterns, which is what ends up in the uniform buffer.
#[derive(Clone, Copy, Debug, PartialEq, Eq, Structural)]
pub enum ParamValue {
    Float(u32),
    Uint(u32),
    Vector(u32, u32, u32, u32),
}

impl ParamValue {
    /// The semantic type this value belongs to.
    pub open spec fn spec_kind(self) -> FieldKind {
        match self {
            ParamValue::Float(_) => FieldKind::Float,
            ParamValue::Uint(_) => FieldKind::Uint,
            ParamValue::Vector(_, _, _, _) => FieldKind::Vector,
        }
    }

    #[verifier::when_used_as_spec(spec_kind)]
    pub fn kind(self) -> (k: FieldKind)
        ensures
            k == self.spec_kind(),
    {
        match self {
            ParamValue::Float(_) => FieldKind::Float,
            ParamValue::Uint(_) => FieldKind::Uint,
            ParamValue::Vector(_, _, _, _) => FieldKind::Vector,
        }
    }
}

/// The range of the uniform buffer that is bound at a slot.
#[derive(Clone, Copy, Debug, PartialEq, Eq, Structural)]
pub struct BlockBinding {
    pub slot: u32,
    /// Where the block of the slot starts in the buffer.
    pub offset: usize,
    /// Size of the block in bytes.
    pub size: usize,
}

/// Mathematical model of a [`Field`].
pub struct FieldSpec {
    pub name: Seq<char>,
    pub slot: u32,
    pub value: ParamValue,
}

/// One named field of a material, bound to a uniform slot.
#[derive(Debug)]
pub struct Field {
    pub name: String,
    pub slot: u32,
    pub value: ParamValue,
}

impl View for Field {
    type V = FieldSpec;

    open spec fn view(&self) -> FieldSpec {
        FieldSpec { name: self.name@, slot: self.slot, value: self.value }
    }
}

impl Clone for Field {
    fn clone(&self) -> (out: Field)
        ensures
            out@ == self@,
    {
        Field { name: self.name.clone(), slot: self.slot, value: self.value }
    }
}

} // verus!
