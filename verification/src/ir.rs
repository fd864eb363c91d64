//! The shader module as this backend reads it.
//!
//! Handles are plain indices into the arena that holds the item: a type
//! handle indexes `Module::types`, an expression handle the expression arena
//! of the function (or `Module::global_expressions`), and so on.
use vstd::prelude::*;

verus! {

/// The kind of a scalar value.
#[derive(Clone, Copy, Debug, PartialEq, Eq, Structural)]
pub enum ScalarKind {
    Sint,
    Uint,
    Float,
    Bool,
    AbstractInt,
    AbstractFloat,
}

/// A scalar type: its kind and its width in bytes.
#[derive(Clone, Copy, Debug, PartialEq, Eq, Structural)]
pub struct Scalar {
    pub kind: ScalarKind,
    pub width: u8,
}

/// Number of components of a vector, or of columns and rows of a matrix.
#[derive(Clone, Copy, Debug, PartialEq, Eq, Structural)]
pub enum VectorSize {
    Bi,
    Tri,
    Quad,
}

/// The size of an array type.
#[derive(Clone, Copy, Debug, PartialEq, Eq, Structural)]
pub enum ArraySize {
    /// A fixed number of elements.
    Constant(u32),
    /// A size given by a pipeline-overridable constant (its handle).
    Pending(usize),
    /// A runtime-sized array.
    Dynamic,
}

/// The memory region that a variable or pointer lives in.
#[derive(Clone, Copy, Debug, PartialEq, Eq, Structural)]
pub enum AddressSpace {
    Function,
    Private,
    WorkGroup,
    Uniform,
    Storage,
    Handle,
    PushConstant,
}

/// A member of a structure type.
#[derive(Clone, Debug, PartialEq, Eq)]
pub struct StructMember {
    pub name: Option<String>,
    /// Handle of the member's type.
    pub ty: usize,
}

/// The shape of a type.
///
/// The variants that this backend cannot express in C++ carry `debug`: the
/// `{:?}` rendering of the type, which is what the backend reports when it
/// refuses the type.
#[derive(Clone, Debug, PartialEq, Eq)]
pub enum TypeInner {
    Scalar(Scalar),
    Vector { size: VectorSize, scalar: Scalar },
    Matrix { columns: VectorSize, rows: VectorSize, scalar: Scalar },
    Atomic { debug: String },
    Pointer { base: usize, space: AddressSpace },
    ValuePointer { debug: String },
    Array { base: usize, size: ArraySize, stride: u32 },
    Struct { members: Vec<StructMember>, span: u32 },
    Image { debug: String },
    Sampler { debug: String },
    AccelerationStructure { debug: String },
    RayQuery { debug: String },
    BindingArray { debug: String },
}

/// A type: its optional name and its shape.
#[derive(Clone, Debug, PartialEq, Eq)]
pub struct Type {
    pub name: Option<String>,
    pub inner: TypeInner,
}

/// A module-scope constant.
#[derive(Clone, Debug, PartialEq, Eq)]
pub struct Constant {
    /// Handle of the constant's type.
    pub ty: usize,
    /// Handle of its value in `Module::global_expressions`.
    pub init: usize,
}

/// A module-scope variable.
#[derive(Clone, Debug, PartialEq, Eq)]
pub struct GlobalVariable {
    pub space: AddressSpace,
    pub ty: usize,
    /// Handle of the initializer in `Module::global_expressions`.
    pub init: Option<usize>,
}

/// A literal value.
///
/// A floating-point literal carries its text: `F64` the `{}` rendering of the
/// value, `F32` its `{:?}` rendering.
#[derive(Clone, Debug, PartialEq, Eq)]
pub enum Literal {
    F64 { text: String },
    F32 { text: String },
    U32(u32),
    I32(i32),
    U64(u64),
    I64(i64),
    Bool(bool),
    F16,
    AbstractInt(i64),
    AbstractFloat,
}

#[derive(Clone, Copy, Debug, PartialEq, Eq, Structural)]
pub enum BinaryOperator {
    Add,
    Subtract,
    Multiply,
    Divide,
    Modulo,
    Equal,
    NotEqual,
    Less,
    LessEqual,
    Greater,
    GreaterEqual,
    And,
    ExclusiveOr,
    InclusiveOr,
    LogicalAnd,
    LogicalOr,
    ShiftLeft,
    ShiftRight,
}

#[derive(Clone, Copy, Debug, PartialEq, Eq, Structural)]
pub enum UnaryOperator {
    Negate,
    LogicalNot,
    BitwiseNot,
}

/// A built-in math function; `Other` carries the function's `{:?}` name.
#[derive(Clone, Debug, PartialEq, Eq)]
pub enum MathFunction {
    Abs,
    Other { name: String },
}

/// An expression node. Operands are handles into the same arena.
#[derive(Clone, Debug, PartialEq, Eq)]
pub enum Expression {
    Literal(Literal),
    Constant(usize),
    GlobalVariable(usize),
    LocalVariable(usize),
    FunctionArgument(u32),
    Binary { op: BinaryOperator, left: usize, right: usize },
    Unary { op: UnaryOperator, expr: usize },
    AccessIndex { base: usize, index: u32 },
    Access { base: usize, index: usize },
    Load { pointer: usize },
    /// `ty` is a type handle; `components` are expression handles.
    Compose { ty: usize, components: Vec<usize> },
    Splat { size: VectorSize, value: usize },
    Select { condition: usize, accept: usize, reject: usize },
    Math { fun: MathFunction, arg: usize },
    /// The result of the call whose function handle this is.
    CallResult(usize),
    /// Any other kind of expression.
    Other,
}

/// A statement. Expression operands are handles into the function's arena.
pub enum Statement {
    Emit,
    Block(Vec<Statement>),
    If { condition: usize, accept: Vec<Statement>, reject: Vec<Statement> },
    Return { value: Option<usize> },
    Loop { body: Vec<Statement>, continuing: Vec<Statement>, break_if: Option<usize> },
    Break,
    Continue,
    Store { pointer: usize, value: usize },
    /// `function` is a function handle; `result` the handle of the
    /// `CallResult` expression that names the returned value.
    Call { function: usize, arguments: Vec<usize>, result: Option<usize> },
    /// Any other kind of statement.
    Other,
}

#[derive(Clone, Debug, PartialEq, Eq)]
pub struct LocalVariable {
    pub ty: usize,
    /// Handle of the initializer in the function's expression arena.
    pub init: Option<usize>,
}

#[derive(Clone, Debug, PartialEq, Eq)]
pub struct FunctionArgument {
    pub ty: usize,
}

#[derive(Clone, Debug, PartialEq, Eq)]
pub struct FunctionResult {
    pub ty: usize,
}

pub struct Function {
    pub arguments: Vec<FunctionArgument>,
    pub result: Option<FunctionResult>,
    pub local_variables: Vec<LocalVariable>,
    pub expressions: Vec<Expression>,
    /// Names that the source gave to expressions: (expression handle, name).
    pub named_expressions: Vec<(usize, String)>,
    pub body: Vec<Statement>,
}

#[derive(Clone, Copy, Debug, PartialEq, Eq, Structural)]
pub enum ShaderStage {
    Vertex,
    Fragment,
    Compute,
    Task,
    Mesh,
}

pub struct EntryPoint {
    pub stage: ShaderStage,
    pub function: Function,
}

/// What an identifier names. Entry points are numbered by a 16-bit index.
#[derive(Clone, Copy, Debug, PartialEq, Eq, Structural)]
pub enum NameKey {
    Constant(usize),
    GlobalVariable(usize),
    Function(usize),
    FunctionArgument(usize, u32),
    FunctionLocal(usize, usize),
    EntryPoint(u16),
    EntryPointArgument(u16, u32),
    EntryPointLocal(u16, usize),
}

/// The identifiers chosen for the module's items (the namer's output).
#[derive(Clone, Debug, PartialEq, Eq)]
pub struct NameTable {
    pub entries: Vec<(NameKey, String)>,
}

/// A shader module together with the identifiers chosen for its items.
pub struct Module {
    pub types: Vec<Type>,
    pub constants: Vec<Constant>,
    pub global_variables: Vec<GlobalVariable>,
    pub global_expressions: Vec<Expression>,
    pub functions: Vec<Function>,
    pub entry_points: Vec<EntryPoint>,
    pub names: NameTable,
}

/// The type of an expression: a type handle, or a shape of its own.
#[derive(Clone, Debug, PartialEq, Eq)]
pub enum TypeResolution {
    Handle(usize),
    Value(TypeInner),
}

/// Validation results for one function: the type of each expression.
#[derive(Clone, Debug, PartialEq, Eq)]
pub struct FunctionInfo {
    pub expressions: Vec<TypeResolution>,
}

/// Validation results for a module.
#[derive(Clone, Debug, PartialEq, Eq)]
pub struct ModuleInfo {
    pub functions: Vec<FunctionInfo>,
    pub entry_points: Vec<FunctionInfo>,
    /// The type of each expression in `Module::global_expressions`.
    pub const_expression_types: Vec<TypeResolution>,
}

/// Which function body is being written.
#[derive(Clone, Copy, Debug, PartialEq, Eq, Structural)]
pub enum FunctionKind {
    Function(usize),
    EntryPoint(u16),
}

} // verus!
