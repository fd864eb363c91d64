//! Mappings from shader-module vocabulary to C++ vocabulary.
use vstd::prelude::*;
use crate::ir::{BinaryOperator, Scalar, ScalarKind, TypeInner, UnaryOperator, VectorSize};

verus! {

/// The C++ spelling of a scalar type. An unusual width falls back to the
/// 32-bit type of the kind; abstract kinds are spelled `float`.
pub open spec fn scalar_text(scalar: Scalar) -> Seq<char> {
    match scalar.kind {
        ScalarKind::Sint => if scalar.width == 8 { "int64_t"@ } else { "int32_t"@ },
        ScalarKind::Uint => if scalar.width == 8 { "uint64_t"@ } else { "uint32_t"@ },
        ScalarKind::Float => if scalar.width == 8 { "double"@ } else { "float"@ },
        ScalarKind::Bool => "bool"@,
        ScalarKind::AbstractInt | ScalarKind::AbstractFloat => "float"@,
    }
}

pub open spec fn vector_size_value(size: VectorSize) -> nat {
    match size {
        VectorSize::Bi => 2,
        VectorSize::Tri => 3,
        VectorSize::Quad => 4,
    }
}

pub open spec fn binary_op_text(op: BinaryOperator) -> Seq<char> {
    match op {
        BinaryOperator::Add => "+"@,
        BinaryOperator::Subtract => "-"@,
        BinaryOperator::Multiply => "*"@,
        BinaryOperator::Divide => "/"@,
        BinaryOperator::Modulo => "%"@,
        BinaryOperator::Equal => "=="@,
        BinaryOperator::NotEqual => "!="@,
        BinaryOperator::Less => "<"@,
        BinaryOperator::LessEqual => "<="@,
        BinaryOperator::Greater => ">"@,
        BinaryOperator::GreaterEqual => ">="@,
        BinaryOperator::And => "&"@,
        BinaryOperator::ExclusiveOr => "^"@,
        BinaryOperator::InclusiveOr => "|"@,
        BinaryOperator::LogicalAnd => "&&"@,
        BinaryOperator::LogicalOr => "||"@,
        BinaryOperator::ShiftLeft => "<<"@,
        BinaryOperator::ShiftRight => ">>"@,
    }
}

pub open spec fn unary_op_text(op: UnaryOperator) -> Seq<char> {
    match op {
        UnaryOperator::Negate => "-"@,
        UnaryOperator::LogicalNot => "!"@,
        UnaryOperator::BitwiseNot => "~"@,
    }
}

/// Scalars, vectors, atomics and pointers are small enough to pass by value;
/// every other type is passed by reference.
pub open spec fn passed_by_reference(inner: TypeInner) -> bool {
    match inner {
        TypeInner::Scalar(_) | TypeInner::Vector { .. } | TypeInner::Atomic { .. }
        | TypeInner::Pointer { .. } | TypeInner::ValuePointer { .. } => false,
        _ => true,
    }
}

/// Helper to convert WGSL scalar types to C++ types
pub fn scalar_to_cpp_type(scalar: Scalar) -> (res: &'static str)
    ensures
        res@ == scalar_text(scalar),
{
    match scalar.kind {
        ScalarKind::Sint => if scalar.width == 4 {
            "int32_t"
        } else if scalar.width == 8 {
            "int64_t"
        } else {
            "int32_t"
        },
        ScalarKind::Uint => if scalar.width == 4 {
            "uint32_t"
        } else if scalar.width == 8 {
            "uint64_t"
        } else {
            "uint32_t"
        },
        ScalarKind::Float => if scalar.width == 4 {
            "float"
        } else if scalar.width == 8 {
            "double"
        } else {
            "float"
        },
        ScalarKind::Bool => "bool",
        ScalarKind::AbstractInt | ScalarKind::AbstractFloat => "float",
    }
}

/// Helper to get vector size as usize
pub fn vector_size_to_usize(size: VectorSize) -> (n: usize)
    ensures
        n == vector_size_value(size),
{
    match size {
        VectorSize::Bi => 2,
        VectorSize::Tri => 3,
        VectorSize::Quad => 4,
    }
}

/// Helper to convert WGSL binary operators to C++ operators
pub fn binary_op_to_cpp(op: BinaryOperator) -> (res: &'static str)
    ensures
        res@ == binary_op_text(op),
{
    match op {
        BinaryOperator::Add => "+",
        BinaryOperator::Subtract => "-",
        BinaryOperator::Multiply => "*",
        BinaryOperator::Divide => "/",
        BinaryOperator::Modulo => "%",
        BinaryOperator::Equal => "==",
        BinaryOperator::NotEqual => "!=",
        BinaryOperator::Less => "<",
        BinaryOperator::LessEqual => "<=",
        BinaryOperator::Greater => ">",
        BinaryOperator::GreaterEqual => ">=",
        BinaryOperator::And => "&",
        BinaryOperator::ExclusiveOr => "^",
        BinaryOperator::InclusiveOr => "|",
        BinaryOperator::LogicalAnd => "&&",
        BinaryOperator::LogicalOr => "||",
        BinaryOperator::ShiftLeft => "<<",
        BinaryOperator::ShiftRight => ">>",
    }
}

/// Helper to convert WGSL unary operators to C++ operators
pub fn unary_op_to_cpp(op: UnaryOperator) -> (res: &'static str)
    ensures
        res@ == unary_op_text(op),
{
    match op {
        UnaryOperator::Negate => "-",
        UnaryOperator::LogicalNot => "!",
        UnaryOperator::BitwiseNot => "~",
    }
}

/// Check if a type needs to be passed by reference
pub fn should_pass_by_reference(inner: &TypeInner) -> (res: bool)
    ensures
        res == passed_by_reference(*inner),
{
    match inner {
        TypeInner::Scalar(_) => false,
        TypeInner::Vector { .. } => false,
        TypeInner::Matrix { .. } => true,
        TypeInner::Atomic { .. } => false,
        TypeInner::Pointer { .. } => false,
        TypeInner::ValuePointer { .. } => false,
        TypeInner::Array { .. } => true,
        TypeInner::Struct { .. } => true,
        TypeInner::Image { .. } => true,
        TypeInner::Sampler { .. } => true,
        TypeInner::AccelerationStructure { .. } => true,
        TypeInner::RayQuery { .. } => true,
        TypeInner::BindingArray { .. } => true,
    }
}

} // verus!
