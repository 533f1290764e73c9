//! The primitive types of the virtual machine: the four scalar types and,
//! for each of them, arrays of 2 to 256 lanes.

use crate::byte_order::{read_i32_at, read_i64_at, read_u32_at, read_u64_at};
use vstd::prelude::*;

verus! {

/// What one lane of a value holds.
#[derive(Clone, Copy, Debug, PartialEq, Eq, Structural)]
pub enum LaneKind {
    Int32,
    Int64,
    Float32,
    Float64,
}

impl LaneKind {
    /// The number of bytes that one lane takes.
    pub open spec fn width(self) -> nat {
        match self {
            LaneKind::Int32 | LaneKind::Float32 => 4,
            LaneKind::Int64 | LaneKind::Float64 => 8,
        }
    }

    /// The scalar type of this kind.
    pub open spec fn scalar(self) -> VmType {
        match self {
            LaneKind::Int32 => VmType::I32,
            LaneKind::Int64 => VmType::I64,
            LaneKind::Float32 => VmType::F32,
            LaneKind::Float64 => VmType::F64,
        }
    }
}

/// A type of the virtual machine.
#[allow(non_camel_case_types)]
#[derive(Clone, Copy, Debug, PartialEq, Eq, Structural)]
pub enum VmType {
    I32,
    I64,
    F32,
    F64,
    i32Array2,
    i32Array4,
    i32Array8,
    i32Array16,
    i32Array32,
    i32Array64,
    i32Array128,
    i32Array256,
    i64Array2,
    i64Array4,
    i64Array8,
    i64Array16,
    i64Array32,
    i64Array64,
    i64Array128,
    i64Array256,
    f32Array2,
    f32Array4,
    f32Array8,
    f32Array16,
    f32Array32,
    f32Array64,
    f32Array128,
    f32Array256,
    f64Array2,
    f64Array4,
    f64Array8,
    f64Array16,
    f64Array32,
    f64Array64,
    f64Array128,
    f64Array256,
}

impl VmType {
    /// What each lane of a value of this type holds.
    pub open spec fn kind(self) -> LaneKind {
        match self {
            VmType::I32
            | VmType::i32Array2
            | VmType::i32Array4
            | VmType::i32Array8
            | VmType::i32Array16
            | VmType::i32Array32
            | VmType::i32Array64
            | VmType::i32Array128
            | VmType::i32Array256 => LaneKind::Int32,
            VmType::I64
            | VmType::i64Array2
            | VmType::i64Array4
            | VmType::i64Array8
            | VmType::i64Array16
            | VmType::i64Array32
            | VmType::i64Array64
            | VmType::i64Array128
            | VmType::i64Array256 => LaneKind::Int64,
            VmType::F32
            | VmType::f32Array2
            | VmType::f32Array4
            | VmType::f32Array8
            | VmType::f32Array16
            | VmType::f32Array32
            | VmType::f32Array64
            | VmType::f32Array128
            | VmType::f32Array256 => LaneKind::Float32,
            VmType::F64
            | VmType::f64Array2
            | VmType::f64Array4
            | VmType::f64Array8
            | VmType::f64Array16
            | VmType::f64Array32
            | VmType::f64Array64
            | VmType::f64Array128
            | VmType::f64Array256 => LaneKind::Float64,
        }
    }

    /// The number of lanes of a value of this type: 1 for a scalar.
    pub open spec fn lanes(self) -> nat {
        match self {
            VmType::I32 | VmType::I64 | VmType::F32 | VmType::F64 => 1,
            VmType::i32Array2 | VmType::i64Array2 | VmType::f32Array2 | VmType::f64Array2 => 2,
            VmType::i32Array4 | VmType::i64Array4 | VmType::f32Array4 | VmType::f64Array4 => 4,
            VmType::i32Array8 | VmType::i64Array8 | VmType::f32Array8 | VmType::f64Array8 => 8,
            VmType::i32Array16 | VmType::i64Array16 | VmType::f32Array16 | VmType::f64Array16 => 16,
            VmType::i32Array32 | VmType::i64Array32 | VmType::f32Array32 | VmType::f64Array32 => 32,
            VmType::i32Array64 | VmType::i64Array64 | VmType::f32Array64 | VmType::f64Array64 => 64,
            VmType::i32Array128 | VmType::i64Array128 | VmType::f32Array128 | VmType::f64Array128 => 128,
            VmType::i32Array256 | VmType::i64Array256 | VmType::f32Array256 | VmType::f64Array256 => 256,
        }
    }

    /// The opcode of the instruction that introduces a constant of this type.
    pub open spec fn opcode(self) -> u8 {
        match self {
            VmType::I32 => 0x10,
            VmType::I64 => 0x11,
            VmType::F32 => 0x12,
            VmType::F64 => 0x13,
            VmType::i32Array2 => 0x14,
            VmType::i32Array4 => 0x15,
            VmType::i32Array8 => 0x16,
            VmType::i32Array16 => 0x17,
            VmType::i32Array32 => 0x18,
            VmType::i32Array64 => 0x19,
            VmType::i32Array128 => 0x1a,
            VmType::i32Array256 => 0x1b,
            VmType::i64Array2 => 0x1c,
            VmType::i64Array4 => 0x1d,
            VmType::i64Array8 => 0x1e,
            VmType::i64Array16 => 0x1f,
            VmType::i64Array32 => 0x20,
            VmType::i64Array64 => 0x21,
            VmType::i64Array128 => 0x22,
            VmType::i64Array256 => 0x23,
            VmType::f32Array2 => 0x24,
            VmType::f32Array4 => 0x25,
            VmType::f32Array8 => 0x26,
            VmType::f32Array16 => 0x27,
            VmType::f32Array32 => 0x28,
            VmType::f32Array64 => 0x29,
            VmType::f32Array128 => 0x2a,
            VmType::f32Array256 => 0x2b,
            VmType::f64Array2 => 0x2c,
            VmType::f64Array4 => 0x2d,
            VmType::f64Array8 => 0x2e,
            VmType::f64Array16 => 0x2f,
            VmType::f64Array32 => 0x30,
            VmType::f64Array64 => 0x31,
            VmType::f64Array128 => 0x32,
            VmType::f64Array256 => 0x33,
        }
    }

    /// The type with opcode `op`, if there is one: the inverse of `opcode`.
    pub open spec fn with_opcode(op: u8) -> Option<VmType> {
        match op {
            0x10 => Some(VmType::I32),
            0x11 => Some(VmType::I64),
            0x12 => Some(VmType::F32),
            0x13 => Some(VmType::F64),
            0x14 => Some(VmType::i32Array2),
            0x15 => Some(VmType::i32Array4),
            0x16 => Some(VmType::i32Array8),
            0x17 => Some(VmType::i32Array16),
            0x18 => Some(VmType::i32Array32),
            0x19 => Some(VmType::i32Array64),
            0x1a => Some(VmType::i32Array128),
            0x1b => Some(VmType::i32Array256),
            0x1c => Some(VmType::i64Array2),
            0x1d => Some(VmType::i64Array4),
            0x1e => Some(VmType::i64Array8),
            0x1f => Some(VmType::i64Array16),
            0x20 => Some(VmType::i64Array32),
            0x21 => Some(VmType::i64Array64),
            0x22 => Some(VmType::i64Array128),
            0x23 => Some(VmType::i64Array256),
            0x24 => Some(VmType::f32Array2),
            0x25 => Some(VmType::f32Array4),
            0x26 => Some(VmType::f32Array8),
            0x27 => Some(VmType::f32Array16),
            0x28 => Some(VmType::f32Array32),
            0x29 => Some(VmType::f32Array64),
            0x2a => Some(VmType::f32Array128),
            0x2b => Some(VmType::f32Array256),
            0x2c => Some(VmType::f64Array2),
            0x2d => Some(VmType::f64Array4),
            0x2e => Some(VmType::f64Array8),
            0x2f => Some(VmType::f64Array16),
            0x30 => Some(VmType::f64Array32),
            0x31 => Some(VmType::f64Array64),
            0x32 => Some(VmType::f64Array128),
            0x33 => Some(VmType::f64Array256),
            _ => None,
        }
    }

    /// The type whose constant the instruction with opcode `op` introduces,
    /// if `op` is the opcode of such an instruction.
    pub fn from_op(op: u8) -> (t: Option<VmType>)
        ensures
            t == Self::with_opcode(op),
    {
        match op {
            0x10 => Some(VmType::I32),
            0x11 => Some(VmType::I64),
            0x12 => Some(VmType::F32),
            0x13 => Some(VmType::F64),
            0x14 => Some(VmType::i32Array2),
            0x15 => Some(VmType::i32Array4),
            0x16 => Some(VmType::i32Array8),
            0x17 => Some(VmType::i32Array16),
            0x18 => Some(VmType::i32Array32),
            0x19 => Some(VmType::i32Array64),
            0x1a => Some(VmType::i32Array128),
            0x1b => Some(VmType::i32Array256),
            0x1c => Some(VmType::i64Array2),
            0x1d => Some(VmType::i64Array4),
            0x1e => Some(VmType::i64Array8),
            0x1f => Some(VmType::i64Array16),
            0x20 => Some(VmType::i64Array32),
            0x21 => Some(VmType::i64Array64),
            0x22 => Some(VmType::i64Array128),
            0x23 => Some(VmType::i64Array256),
            0x24 => Some(VmType::f32Array2),
            0x25 => Some(VmType::f32Array4),
            0x26 => Some(VmType::f32Array8),
            0x27 => Some(VmType::f32Array16),
            0x28 => Some(VmType::f32Array32),
            0x29 => Some(VmType::f32Array64),
            0x2a => Some(VmType::f32Array128),
            0x2b => Some(VmType::f32Array256),
            0x2c => Some(VmType::f64Array2),
            0x2d => Some(VmType::f64Array4),
            0x2e => Some(VmType::f64Array8),
            0x2f => Some(VmType::f64Array16),
            0x30 => Some(VmType::f64Array32),
            0x31 => Some(VmType::f64Array64),
            0x32 => Some(VmType::f64Array128),
            0x33 => Some(VmType::f64Array256),
            _ => None,
        }
    }

    /// Whether `buf` holds exactly one value of this type: every lane can be
    /// read from it, in big-endian order, and nothing is left over.
    pub fn validate_structure(&self, buf: &[u8]) -> (valid: bool)
        ensures
            valid == (buf@.len() == self.lanes() * self.kind().width()),
    {
        if buf.len() != self.byte_size() {
            return false;
        }
        let width: usize = if self.is_i32() || self.is_f32() {
            4
        } else {
            8
        };
        let count: usize = self.byte_size() / width;
        let mut lane: usize = 0;
        while lane < count
            invariant
                buf@.len() == count * width,
                lane <= count,
                width == self.kind().width(),
                count == self.lanes(),
            decreases count - lane,
        {
            assert(lane * width + width <= count * width) by (nonlinear_arith)
                requires
                    lane < count,
            ;
            let pos: u64 = (lane * width) as u64;
            let readable = if self.is_i32() {
                read_i32_at(buf, pos).is_some()
            } else if self.is_i64() {
                read_i64_at(buf, pos).is_some()
            } else if self.is_f32() {
                read_u32_at(buf, pos).is_some()
            } else {
                read_u64_at(buf, pos).is_some()
            };
            if !readable {
                return false;
            }
            lane = lane + 1;
        }
        true
    }

    /// The scalar type that the lanes of an array of this type hold; nothing
    /// for a scalar type.
    pub fn array_accepts(&self) -> (t: Option<VmType>)
        ensures
            t == (if self.lanes() > 1 {
                Some(self.kind().scalar())
            } else {
                None
            }),
    {
        match *self {
            VmType::i32Array2
            | VmType::i32Array4
            | VmType::i32Array8
            | VmType::i32Array16
            | VmType::i32Array32
            | VmType::i32Array64
            | VmType::i32Array128
            | VmType::i32Array256 => Some(VmType::I32),
            VmType::i64Array2
            | VmType::i64Array4
            | VmType::i64Array8
            | VmType::i64Array16
            | VmType::i64Array32
            | VmType::i64Array64
            | VmType::i64Array128
            | VmType::i64Array256 => Some(VmType::I64),
            VmType::f32Array2
            | VmType::f32Array4
            | VmType::f32Array8
            | VmType::f32Array16
            | VmType::f32Array32
            | VmType::f32Array64
            | VmType::f32Array128
            | VmType::f32Array256 => Some(VmType::F32),
            VmType::f64Array2
            | VmType::f64Array4
            | VmType::f64Array8
            | VmType::f64Array16
            | VmType::f64Array32
            | VmType::f64Array64
            | VmType::f64Array128
            | VmType::f64Array256 => Some(VmType::F64),
            _ => None,
        }
    }

    /// The number of bytes that a value of this type takes.
    pub fn byte_size(&self) -> (size: usize)
        ensures
            size == self.lanes() * self.kind().width(),
    {
        match *self {
            VmType::I32 => 4,
            VmType::I64 => 8,
            VmType::F32 => 4,
            VmType::F64 => 8,
            VmType::i32Array2 => 8,
            VmType::i32Array4 => 16,
            VmType::i32Array8 => 32,
            VmType::i32Array16 => 64,
            VmType::i32Array32 => 128,
            VmType::i32Array64 => 256,
            VmType::i32Array128 => 512,
            VmType::i32Array256 => 1024,
            VmType::i64Array2 => 16,
            VmType::i64Array4 => 32,
            VmType::i64Array8 => 64,
            VmType::i64Array16 => 128,
            VmType::i64Array32 => 256,
            VmType::i64Array64 => 512,
            VmType::i64Array128 => 1024,
            VmType::i64Array256 => 2048,
            VmType::f32Array2 => 8,
            VmType::f32Array4 => 16,
            VmType::f32Array8 => 32,
            VmType::f32Array16 => 64,
            VmType::f32Array32 => 128,
            VmType::f32Array64 => 256,
            VmType::f32Array128 => 512,
            VmType::f32Array256 => 1024,
            VmType::f64Array2 => 16,
            VmType::f64Array4 => 32,
            VmType::f64Array8 => 64,
            VmType::f64Array16 => 128,
            VmType::f64Array32 => 256,
            VmType::f64Array64 => 512,
            VmType::f64Array128 => 1024,
            VmType::f64Array256 => 2048,
        }
    }

    /// Whether the lanes hold floating-point numbers.
    pub fn is_float(&self) -> (b: bool)
        ensures
            b == (self.kind() == LaneKind::Float32 || self.kind() == LaneKind::Float64),
    {
        match *self {
            VmType::F32
            | VmType::F64
            | VmType::f32Array2
            | VmType::f32Array4
            | VmType::f32Array8
            | VmType::f32Array16
            | VmType::f32Array32
            | VmType::f32Array64
            | VmType::f32Array128
            | VmType::f32Array256
            | VmType::f64Array2
            | VmType::f64Array4
            | VmType::f64Array8
            | VmType::f64Array16
            | VmType::f64Array32
            | VmType::f64Array64
            | VmType::f64Array128
            | VmType::f64Array256 => true,
            _ => false,
        }
    }

    /// Whether the lanes hold integers.
    pub fn is_int(&self) -> (b: bool)
        ensures
            b == (self.kind() == LaneKind::Int32 || self.kind() == LaneKind::Int64),
    {
        !self.is_float()
    }

    /// Whether the lanes hold 32-bit integers.
    pub fn is_i32(&self) -> (b: bool)
        ensures
            b == (self.kind() == LaneKind::Int32),
    {
        match *self {
            VmType::I32
            | VmType::i32Array2
            | VmType::i32Array4
            | VmType::i32Array8
            | VmType::i32Array16
            | VmType::i32Array32
            | VmType::i32Array64
            | VmType::i32Array128
            | VmType::i32Array256 => true,
            _ => false,
        }
    }

    /// Whether the lanes hold 64-bit integers.
    pub fn is_i64(&self) -> (b: bool)
        ensures
            b == (self.kind() == LaneKind::Int64),
    {
        match *self {
            VmType::I64
            | VmType::i64Array2
            | VmType::i64Array4
            | VmType::i64Array8
            | VmType::i64Array16
            | VmType::i64Array32
            | VmType::i64Array64
            | VmType::i64Array128
            | VmType::i64Array256 => true,
            _ => false,
        }
    }

    /// Whether the lanes hold 32-bit floating-point numbers.
    pub fn is_f32(&self) -> (b: bool)
        ensures
            b == (self.kind() == LaneKind::Float32),
    {
        match *self {
            VmType::F32
            | VmType::f32Array2
            | VmType::f32Array4
            | VmType::f32Array8
            | VmType::f32Array16
            | VmType::f32Array32
            | VmType::f32Array64
            | VmType::f32Array128
            | VmType::f32Array256 => true,
            _ => false,
        }
    }

    /// Whether the lanes hold 64-bit floating-point numbers.
    pub fn is_f64(&self) -> (b: bool)
        ensures
            b == (self.kind() == LaneKind::Float64),
    {
        match *self {
            VmType::F64
            | VmType::f64Array2
            | VmType::f64Array4
            | VmType::f64Array8
            | VmType::f64Array16
            | VmType::f64Array32
            | VmType::f64Array64
            | VmType::f64Array128
            | VmType::f64Array256 => true,
            _ => false,
        }
    }

    /// Whether this is an array type.
    pub fn is_array(&self) -> (b: bool)
        ensures
            b == (self.lanes() > 1),
    {
        match *self {
            VmType::I32 | VmType::I64 | VmType::F32 | VmType::F64 => false,
            _ => true,
        }
    }
}

/// Every type is found again from its opcode, and an opcode gives a type
/// only if it is the opcode of that type.
pub proof fn lemma_opcode_round_trip(t: VmType, op: u8)
    ensures
        VmType::with_opcode(t.opcode()) == Some(t),
        VmType::with_opcode(op) == Some(t) <==> t.opcode() == op,
{
}

} // verus!
