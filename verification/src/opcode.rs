//! The wire codes of the built-in type constructors.
//!
//! Every built-in constructor is written on the wire as a small negative
//! integer. Non-negative integers are indices of user-defined composite types
//! and are never opcodes.

use vstd::prelude::*;

verus! {

/// One built-in type constructor, as it is tagged on the wire.
#[derive(Debug, PartialEq, Eq, Clone, Copy, Hash, Structural)]
pub enum Opcode {
    Null,
    Bool,
    Nat,
    Int,
    Nat8,
    Nat16,
    Nat32,
    Nat64,
    Int8,
    Int16,
    Int32,
    Int64,
    Float32,
    Float64,
    Text,
    Reserved,
    Empty,
    Opt,
    Vec,
    Record,
    Variant,
}

/// The failure of [`Opcode::try_from_primitive`]: `number` is the integer
/// that names no built-in constructor.
#[derive(Debug, PartialEq, Eq, Clone, Copy, Structural)]
pub struct InvalidOpcode {
    pub number: i64,
}

/// The smallest integer that is an opcode.
pub const MIN_OPCODE: i64 = -21;

/// The largest integer that is an opcode.
pub const MAX_OPCODE: i64 = -1;

/// Whether `number` lies in the range reserved for built-in constructors.
pub open spec fn is_opcode(number: int) -> bool {
    MIN_OPCODE <= number <= MAX_OPCODE
}

/// The constructor that `number` stands for, if it stands for one.
pub open spec fn opcode_of(number: int) -> Option<Opcode> {
    if number == -1 {
        Some(Opcode::Null)
    } else if number == -2 {
        Some(Opcode::Bool)
    } else if number == -3 {
        Some(Opcode::Nat)
    } else if number == -4 {
        Some(Opcode::Int)
    } else if number == -5 {
        Some(Opcode::Nat8)
    } else if number == -6 {
        Some(Opcode::Nat16)
    } else if number == -7 {
        Some(Opcode::Nat32)
    } else if number == -8 {
        Some(Opcode::Nat64)
    } else if number == -9 {
        Some(Opcode::Int8)
    } else if number == -10 {
        Some(Opcode::Int16)
    } else if number == -11 {
        Some(Opcode::Int32)
    } else if number == -12 {
        Some(Opcode::Int64)
    } else if number == -13 {
        Some(Opcode::Float32)
    } else if number == -14 {
        Some(Opcode::Float64)
    } else if number == -15 {
        Some(Opcode::Text)
    } else if number == -16 {
        Some(Opcode::Reserved)
    } else if number == -17 {
        Some(Opcode::Empty)
    } else if number == -18 {
        Some(Opcode::Opt)
    } else if number == -19 {
        Some(Opcode::Vec)
    } else if number == -20 {
        Some(Opcode::Record)
    } else if number == -21 {
        Some(Opcode::Variant)
    } else {
        None
    }
}

impl Opcode {
    /// The integer that stands for this constructor on the wire.
    pub open spec fn wire_code(self) -> int {
        match self {
            Opcode::Null => -1,
            Opcode::Bool => -2,
            Opcode::Nat => -3,
            Opcode::Int => -4,
            Opcode::Nat8 => -5,
            Opcode::Nat16 => -6,
            Opcode::Nat32 => -7,
            Opcode::Nat64 => -8,
            Opcode::Int8 => -9,
            Opcode::Int16 => -10,
            Opcode::Int32 => -11,
            Opcode::Int64 => -12,
            Opcode::Float32 => -13,
            Opcode::Float64 => -14,
            Opcode::Text => -15,
            Opcode::Reserved => -16,
            Opcode::Empty => -17,
            Opcode::Opt => -18,
            Opcode::Vec => -19,
            Opcode::Record => -20,
            Opcode::Variant => -21,
        }
    }

    /// Returns the wire code of this constructor.
    pub fn code(self) -> (number: i64)
        ensures
            number == self.wire_code(),
            is_opcode(number as int),
    {
        match self {
            Opcode::Null => -1,
            Opcode::Bool => -2,
            Opcode::Nat => -3,
            Opcode::Int => -4,
            Opcode::Nat8 => -5,
            Opcode::Nat16 => -6,
            Opcode::Nat32 => -7,
            Opcode::Nat64 => -8,
            Opcode::Int8 => -9,
            Opcode::Int16 => -10,
            Opcode::Int32 => -11,
            Opcode::Int64 => -12,
            Opcode::Float32 => -13,
            Opcode::Float64 => -14,
            Opcode::Text => -15,
            Opcode::Reserved => -16,
            Opcode::Empty => -17,
            Opcode::Opt => -18,
            Opcode::Vec => -19,
            Opcode::Record => -20,
            Opcode::Variant => -21,
        }
    }

    /// Reads a wire code. Succeeds exactly on the integers from
    /// [`MIN_OPCODE`] to [`MAX_OPCODE`]; every other integer, zero and the
    /// positive ones included, comes back in the error.
    pub fn try_from_primitive(number: i64) -> (r: Result<Opcode, InvalidOpcode>)
        ensures
            r is Ok <==> is_opcode(number as int),
            r matches Ok(op) ==> opcode_of(number as int) == Some(op) && op.wire_code() == number,
            r matches Err(e) ==> e.number == number && opcode_of(number as int) is None,
    {
        match number {
            -1 => Ok(Opcode::Null),
            -2 => Ok(Opcode::Bool),
            -3 => Ok(Opcode::Nat),
            -4 => Ok(Opcode::Int),
            -5 => Ok(Opcode::Nat8),
            -6 => Ok(Opcode::Nat16),
            -7 => Ok(Opcode::Nat32),
            -8 => Ok(Opcode::Nat64),
            -9 => Ok(Opcode::Int8),
            -10 => Ok(Opcode::Int16),
            -11 => Ok(Opcode::Int32),
            -12 => Ok(Opcode::Int64),
            -13 => Ok(Opcode::Float32),
            -14 => Ok(Opcode::Float64),
            -15 => Ok(Opcode::Text),
            -16 => Ok(Opcode::Reserved),
            -17 => Ok(Opcode::Empty),
            -18 => Ok(Opcode::Opt),
            -19 => Ok(Opcode::Vec),
            -20 => Ok(Opcode::Record),
            -21 => Ok(Opcode::Variant),
            _ => Err(InvalidOpcode { number }),
        }
    }
}

/// Reading the wire code of a constructor gives that constructor back.
pub proof fn lemma_code_then_read(op: Opcode)
    ensures
        is_opcode(op.wire_code()),
        opcode_of(op.wire_code()) == Some(op),
{
}

/// An integer in the reserved range is the wire code of the constructor it
/// is read as; an integer outside the range is read as nothing.
pub proof fn lemma_read_then_code(number: int)
    ensures
        is_opcode(number) ==> opcode_of(number) is Some && opcode_of(number).unwrap().wire_code()
            == number,
        !is_opcode(number) ==> opcode_of(number) is None,
{
}

/// Two constructors with the same wire code are the same constructor.
pub proof fn lemma_wire_code_injective(a: Opcode, b: Opcode)
    requires
        a.wire_code() == b.wire_code(),
    ensures
        a == b,
{
}

} // verus!
