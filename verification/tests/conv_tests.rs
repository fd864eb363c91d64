use naga_cpp::conv::{
    binary_op_to_cpp, scalar_to_cpp_type, should_pass_by_reference, unary_op_to_cpp,
    vector_size_to_usize,
};
use naga_cpp::ir::{
    AddressSpace, ArraySize, BinaryOperator, Scalar, ScalarKind, TypeInner, UnaryOperator,
    VectorSize,
};
use naga_cpp::text::{indent_string, push_decimal, push_indent, push_signed_decimal};

fn scalar(kind: ScalarKind, width: u8) -> Scalar {
    Scalar { kind, width }
}

#[test]
fn scalar_types_by_kind_and_width() {
    assert_eq!(scalar_to_cpp_type(scalar(ScalarKind::Sint, 4)), "int32_t");
    assert_eq!(scalar_to_cpp_type(scalar(ScalarKind::Sint, 8)), "int64_t");
    assert_eq!(scalar_to_cpp_type(scalar(ScalarKind::Sint, 2)), "int32_t");
    assert_eq!(scalar_to_cpp_type(scalar(ScalarKind::Uint, 4)), "uint32_t");
    assert_eq!(scalar_to_cpp_type(scalar(ScalarKind::Uint, 8)), "uint64_t");
    assert_eq!(scalar_to_cpp_type(scalar(ScalarKind::Uint, 1)), "uint32_t");
    assert_eq!(scalar_to_cpp_type(scalar(ScalarKind::Float, 4)), "float");
    assert_eq!(scalar_to_cpp_type(scalar(ScalarKind::Float, 8)), "double");
    assert_eq!(scalar_to_cpp_type(scalar(ScalarKind::Float, 2)), "float");
    assert_eq!(scalar_to_cpp_type(scalar(ScalarKind::Bool, 1)), "bool");
    assert_eq!(scalar_to_cpp_type(scalar(ScalarKind::AbstractInt, 8)), "float");
    assert_eq!(scalar_to_cpp_type(scalar(ScalarKind::AbstractFloat, 8)), "float");
}

#[test]
fn vector_sizes_count_components() {
    assert_eq!(vector_size_to_usize(VectorSize::Bi), 2);
    assert_eq!(vector_size_to_usize(VectorSize::Tri), 3);
    assert_eq!(vector_size_to_usize(VectorSize::Quad), 4);
}

#[test]
fn binary_operators_are_spelled_as_in_cpp() {
    let cases = [
        (BinaryOperator::Add, "+"),
        (BinaryOperator::Subtract, "-"),
        (BinaryOperator::Multiply, "*"),
        (BinaryOperator::Divide, "/"),
        (BinaryOperator::Modulo, "%"),
        (BinaryOperator::Equal, "=="),
        (BinaryOperator::NotEqual, "!="),
        (BinaryOperator::Less, "<"),
        (BinaryOperator::LessEqual, "<="),
        (BinaryOperator::Greater, ">"),
        (BinaryOperator::GreaterEqual, ">="),
        (BinaryOperator::And, "&"),
        (BinaryOperator::ExclusiveOr, "^"),
        (BinaryOperator::InclusiveOr, "|"),
        (BinaryOperator::LogicalAnd, "&&"),
        (BinaryOperator::LogicalOr, "||"),
        (BinaryOperator::ShiftLeft, "<<"),
        (BinaryOperator::ShiftRight, ">>"),
    ];
    for (op, text) in cases {
        assert_eq!(binary_op_to_cpp(op), text);
    }
}

#[test]
fn unary_operators_are_spelled_as_in_cpp() {
    assert_eq!(unary_op_to_cpp(UnaryOperator::Negate), "-");
    assert_eq!(unary_op_to_cpp(UnaryOperator::LogicalNot), "!");
    assert_eq!(unary_op_to_cpp(UnaryOperator::BitwiseNot), "~");
}

#[test]
fn small_types_pass_by_value_large_by_reference() {
    let f32_scalar = scalar(ScalarKind::Float, 4);
    let debug = || String::from("x");
    assert!(!should_pass_by_reference(&TypeInner::Scalar(f32_scalar)));
    assert!(!should_pass_by_reference(&TypeInner::Vector { size: VectorSize::Quad, scalar: f32_scalar }));
    assert!(should_pass_by_reference(&TypeInner::Matrix {
        columns: VectorSize::Bi,
        rows: VectorSize::Bi,
        scalar: f32_scalar
    }));
    assert!(!should_pass_by_reference(&TypeInner::Atomic { debug: debug() }));
    assert!(!should_pass_by_reference(&TypeInner::Pointer { base: 0, space: AddressSpace::Function }));
    assert!(!should_pass_by_reference(&TypeInner::ValuePointer { debug: debug() }));
    assert!(should_pass_by_reference(&TypeInner::Array { base: 0, size: ArraySize::Constant(4), stride: 4 }));
    assert!(should_pass_by_reference(&TypeInner::Struct { members: Vec::new(), span: 0 }));
    assert!(should_pass_by_reference(&TypeInner::Image { debug: debug() }));
    assert!(should_pass_by_reference(&TypeInner::Sampler { debug: debug() }));
    assert!(should_pass_by_reference(&TypeInner::AccelerationStructure { debug: debug() }));
    assert!(should_pass_by_reference(&TypeInner::RayQuery { debug: debug() }));
    assert!(should_pass_by_reference(&TypeInner::BindingArray { debug: debug() }));
}

#[test]
fn decimal_numerals() {
    let mut out = String::from("n=");
    push_decimal(&mut out, 0);
    assert_eq!(out, "n=0");
    let mut out = String::new();
    push_decimal(&mut out, 1234567890);
    assert_eq!(out, "1234567890");
    let mut out = String::new();
    push_decimal(&mut out, u64::MAX);
    assert_eq!(out, "18446744073709551615");
}

#[test]
fn signed_decimal_numerals() {
    let mut out = String::new();
    push_signed_decimal(&mut out, -42);
    assert_eq!(out, "-42");
    let mut out = String::new();
    push_signed_decimal(&mut out, 42);
    assert_eq!(out, "42");
    let mut out = String::new();
    push_signed_decimal(&mut out, i64::MIN);
    assert_eq!(out, "-9223372036854775808");
}

#[test]
fn indentation_is_four_spaces_per_level() {
    assert_eq!(indent_string(0), "");
    assert_eq!(indent_string(2), "        ");
    let mut out = String::from("x");
    push_indent(&mut out, 1);
    assert_eq!(out, "x    ");
}
