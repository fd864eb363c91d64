//! The C++ text of a module, as mathematical functions.
//!
//! Each function gives the text that the writer appends for one part of the
//! module, or the refusal that stops it together with the text written
//! before it: where the writer would stop at the first of several refusals,
//! the function gives that first one.
use vstd::prelude::*;
use crate::conv::{binary_op_text, scalar_text, unary_op_text, vector_size_value};
use crate::ir::{
    AddressSpace, ArraySize, Constant, Expression, Function, FunctionKind, GlobalVariable,
    Literal, LocalVariable, MathFunction, Module, ModuleInfo, NameKey, NameTable, Scalar,
    ShaderStage, Statement, StructMember, Type, TypeInner, TypeResolution, VectorSize,
};
use crate::names::{argument_key, local_key};
use crate::text::{decimal, indent_text, signed_decimal};
use crate::Failure;

verus! {

/// What the backend refuses to write.
pub enum Refusal {
    /// A feature it cannot express, with the message it reports.
    Unsupported(Seq<char>),
    /// An entry point that is not a compute shader.
    InvalidStage(ShaderStage),
}

impl Refusal {
    /// The error reported for this refusal.
    pub open spec fn failure(self) -> Failure {
        match self {
            Refusal::Unsupported(message) => Failure::Unsupported(message),
            Refusal::InvalidStage(stage) => Failure::InvalidStage(stage),
        }
    }
}

/// A refusal, and the text that the writer appended before it stopped.
pub struct Stop {
    pub refusal: Refusal,
    pub written: Seq<char>,
}

/// Refusing `message` before anything is written.
pub open spec fn unsupported(message: Seq<char>) -> Stop {
    Stop { refusal: Refusal::Unsupported(message), written: Seq::empty() }
}

/// `stop`, after `text` was written.
pub open spec fn after(text: Seq<char>, stop: Stop) -> Stop {
    Stop { refusal: stop.refusal, written: text + stop.written }
}

/// `text` followed by what `rest` gives, or the refusal of `rest` after
/// `text`.
pub open spec fn prepend(text: Seq<char>, rest: Result<Seq<char>, Stop>) -> Result<Seq<char>, Stop> {
    match rest {
        Ok(r) => Ok(text + r),
        Err(e) => Err(after(text, e)),
    }
}

// ---------------------------------------------------------------- types

/// The C++ spelling of type `h`.
pub open spec fn type_text(types: Seq<Type>, h: int) -> Result<Seq<char>, Stop>
    decreases h,
{
    let ty = types[h];
    match ty.inner {
        TypeInner::Scalar(scalar) => Ok(scalar_text(scalar)),
        TypeInner::Vector { size, scalar } => Ok(
            "vec"@ + decimal(vector_size_value(size)) + "<"@ + scalar_text(scalar) + ">"@,
        ),
        TypeInner::Matrix { columns, rows, scalar } => Ok(
            "mat"@ + decimal(vector_size_value(columns)) + "x"@ + decimal(vector_size_value(rows))
                + "<"@ + scalar_text(scalar) + ">"@,
        ),
        TypeInner::Array { base, size, .. } => {
            if 0 <= base < h {
                match type_text(types, base as int) {
                    Err(e) => Err(after("std::array<"@, e)),
                    Ok(base_text) => {
                        let head = "std::array<"@ + base_text + ", "@;
                        match size {
                            ArraySize::Constant(n) => Ok(head + decimal(n as nat) + ">"@),
                            ArraySize::Dynamic => Err(after(head, unsupported("dynamic arrays"@))),
                            ArraySize::Pending(_) => Err(after(head, unsupported("pending array size"@))),
                        }
                    },
                }
            } else {
                Ok(Seq::empty())
            }
        },
        TypeInner::Struct { .. } => match ty.name {
            Some(name) => Ok(name@),
            None => Err(unsupported("anonymous structs"@)),
        },
        TypeInner::Pointer { base, .. } => {
            if 0 <= base < h {
                match type_text(types, base as int) {
                    Err(e) => Err(e),
                    Ok(base_text) => Ok(base_text + "*"@),
                }
            } else {
                Ok(Seq::empty())
            }
        },
        TypeInner::Atomic { debug }
        | TypeInner::ValuePointer { debug }
        | TypeInner::Image { debug }
        | TypeInner::Sampler { debug }
        | TypeInner::AccelerationStructure { debug }
        | TypeInner::RayQuery { debug }
        | TypeInner::BindingArray { debug } => Err(unsupported("type "@ + debug@)),
    }
}

/// The field lines of a structure definition.
pub open spec fn members_text(types: Seq<Type>, members: Seq<StructMember>) -> Result<Seq<char>, Stop>
    decreases members.len(),
{
    if members.len() == 0 {
        Ok(Seq::empty())
    } else {
        let member = members[0];
        match type_text(types, member.ty as int) {
            Err(e) => Err(after("    "@, e)),
            Ok(ty_text) => {
                let field = match member.name {
                    Some(name) => name@,
                    None => "_field"@,
                };
                prepend(
                    "    "@ + ty_text + " "@ + field + ";"@ + "\n"@,
                    members_text(types, members.drop_first()),
                )
            },
        }
    }
}

/// A named structure type is defined; other types need no definition.
pub open spec fn type_definition_text(types: Seq<Type>, ty: Type) -> Result<Seq<char>, Stop> {
    match ty.name {
        Some(name) => match ty.inner {
            TypeInner::Struct { members, .. } => {
                let head = "struct "@ + name@ + " {"@ + "\n"@;
                match members_text(types, members@) {
                    Err(e) => Err(after(head, e)),
                    Ok(fields) => Ok(head + fields + "};"@ + "\n"@ + "\n"@),
                }
            },
            _ => Ok(Seq::empty()),
        },
        None => Ok(Seq::empty()),
    }
}

// ----------------------------------------------------------- literals

pub open spec fn literal_text(literal: Literal) -> Result<Seq<char>, Stop> {
    match literal {
        Literal::F64 { text } => Ok(text@),
        Literal::F32 { text } => Ok(text@ + "f"@),
        Literal::U32(v) => Ok(decimal(v as nat) + "u"@),
        Literal::I32(v) => Ok(signed_decimal(v as int)),
        Literal::I64(v) => Ok(signed_decimal(v as int) + "L"@),
        Literal::U64(v) => Ok(decimal(v as nat) + "UL"@),
        Literal::Bool(b) => Ok(if b { "true"@ } else { "false"@ }),
        Literal::F16 => Err(unsupported("f16 literals"@)),
        Literal::AbstractInt(_) | Literal::AbstractFloat => Ok("/* abstract */"@),
    }
}

// -------------------------------------------------------- expressions

/// The names given to call results so far, first entry first.
pub open spec fn find_call(calls: Seq<(usize, Seq<char>)>, handle: usize) -> Option<Seq<char>>
    decreases calls.len(),
{
    if calls.len() == 0 {
        None
    } else if calls[0].0 == handle {
        Some(calls[0].1)
    } else {
        find_call(calls.drop_first(), handle)
    }
}

/// What writing an expression reads besides the expression itself.
pub struct ExprScope {
    pub types: Seq<Type>,
    pub names: NameTable,
    /// The function being written, if any.
    pub kind: Option<FunctionKind>,
    /// The type of each expression of the arena.
    pub resolutions: Seq<TypeResolution>,
    pub arena: Seq<Expression>,
}

pub open spec fn resolution_inner(types: Seq<Type>, resolution: TypeResolution) -> TypeInner {
    match resolution {
        TypeResolution::Handle(t) => types[t as int].inner,
        TypeResolution::Value(inner) => inner,
    }
}

/// The resolved type of expression `h`.
pub open spec fn resolved_inner(sc: ExprScope, h: int) -> TypeInner {
    resolution_inner(sc.types, sc.resolutions[h])
}

/// `vec<N><T>(`
pub open spec fn vector_constructor_open(size: VectorSize, scalar: Scalar) -> Seq<char> {
    "vec"@ + decimal(vector_size_value(size)) + "<"@ + scalar_text(scalar) + ">("@
}

/// The C++ text of expression `h` of the arena, given the names that
/// call results have so far.
pub open spec fn expr_text(sc: ExprScope, calls: Seq<(usize, Seq<char>)>, h: int) -> Result<Seq<char>, Stop>
    decreases h, 1int, 0int,
{
    match sc.arena[h] {
        Expression::Literal(literal) => literal_text(literal),
        Expression::Constant(c) => Ok(sc.names.text(NameKey::Constant(c))),
        Expression::GlobalVariable(g) => Ok(sc.names.text(NameKey::GlobalVariable(g))),
        Expression::LocalVariable(l) => Ok(sc.names.text(local_key(sc.kind.unwrap(), l))),
        Expression::FunctionArgument(i) => Ok(sc.names.text(argument_key(sc.kind.unwrap(), i))),
        Expression::Binary { op, left, right } => {
            if left < h && right < h {
                match expr_text(sc, calls, left as int) {
                    Err(e) => Err(after("("@, e)),
                    Ok(l) => {
                        let head = "("@ + l + " "@ + binary_op_text(op) + " "@;
                        match expr_text(sc, calls, right as int) {
                            Err(e) => Err(after(head, e)),
                            Ok(r) => Ok(head + r + ")"@),
                        }
                    },
                }
            } else {
                Ok(Seq::empty())
            }
        },
        Expression::Unary { op, expr } => {
            if expr < h {
                match expr_text(sc, calls, expr as int) {
                    Err(e) => Err(after(unary_op_text(op), e)),
                    Ok(x) => Ok(unary_op_text(op) + x),
                }
            } else {
                Ok(Seq::empty())
            }
        },
        Expression::AccessIndex { base, index } => {
            if base < h {
                match expr_text(sc, calls, base as int) {
                    Err(e) => Err(e),
                    Ok(b) => Ok(b + "["@ + decimal(index as nat) + "]"@),
                }
            } else {
                Ok(Seq::empty())
            }
        },
        Expression::Access { base, index } => {
            if base < h && index < h {
                match expr_text(sc, calls, base as int) {
                    Err(e) => Err(e),
                    Ok(b) => match expr_text(sc, calls, index as int) {
                        Err(e) => Err(after(b + "["@, e)),
                        Ok(i) => Ok(b + "["@ + i + "]"@),
                    },
                }
            } else {
                Ok(Seq::empty())
            }
        },
        Expression::Load { pointer } => {
            if pointer < h {
                expr_text(sc, calls, pointer as int)
            } else {
                Ok(Seq::empty())
            }
        },
        Expression::Compose { ty, components } => match sc.types[ty as int].inner {
            TypeInner::Vector { size, scalar } => match components_text(sc, calls, h, components@, false) {
                Err(e) => Err(after(vector_constructor_open(size, scalar), e)),
                Ok(c) => Ok(vector_constructor_open(size, scalar) + c + ")"@),
            },
            TypeInner::Scalar(_) => {
                if components.len() == 0 {
                    Ok("0"@)
                } else if components[0] < h {
                    expr_text(sc, calls, components[0] as int)
                } else {
                    Ok(Seq::empty())
                }
            },
            _ => Err(unsupported("composite constructors for this type"@)),
        },
        Expression::Splat { size, value } => match resolved_inner(sc, h) {
            TypeInner::Vector { scalar, .. } => {
                if value < h {
                    match expr_text(sc, calls, value as int) {
                        Err(e) => Err(after(vector_constructor_open(size, scalar), e)),
                        Ok(v) => Ok(vector_constructor_open(size, scalar) + v + ")"@),
                    }
                } else {
                    Ok(Seq::empty())
                }
            },
            _ => Err(unsupported("splat for non-vector type"@)),
        },
        Expression::Select { condition, accept, reject } => {
            if condition < h && accept < h && reject < h {
                match expr_text(sc, calls, reject as int) {
                    Err(e) => Err(after("select("@, e)),
                    Ok(r) => match expr_text(sc, calls, accept as int) {
                        Err(e) => Err(after("select("@ + r + ", "@, e)),
                        Ok(a) => match expr_text(sc, calls, condition as int) {
                            Err(e) => Err(after("select("@ + r + ", "@ + a + ", "@, e)),
                            Ok(c) => Ok("select("@ + r + ", "@ + a + ", "@ + c + ")"@),
                        },
                    },
                }
            } else {
                Ok(Seq::empty())
            }
        },
        Expression::Math { fun, arg } => match fun {
            MathFunction::Abs => {
                let open = match resolved_inner(sc, h) {
                    TypeInner::Scalar(_) => Some("std::abs("@),
                    TypeInner::Vector { .. } => Some("abs("@),
                    _ => None,
                };
                match open {
                    None => Err(unsupported("abs for this type"@)),
                    Some(open) => {
                        if arg < h {
                            match expr_text(sc, calls, arg as int) {
                                Err(e) => Err(after(open, e)),
                                Ok(a) => Ok(open + a + ")"@),
                            }
                        } else {
                            Ok(Seq::empty())
                        }
                    },
                }
            },
            MathFunction::Other { name } => Err(
                unsupported("math function "@ + name@ + " not supported"@),
            ),
        },
        Expression::CallResult(_) => match find_call(calls, h as usize) {
            Some(name) => Ok(name),
            None => Err(unsupported("call result used before call statement"@)),
        },
        Expression::Other => Ok("/* expr */"@),
    }
}

/// The components of a vector constructor of expression `parent`, each but
/// the first preceded by a comma (the first too when `separate`).
pub open spec fn components_text(
    sc: ExprScope,
    calls: Seq<(usize, Seq<char>)>,
    parent: int,
    components: Seq<usize>,
    separate: bool,
) -> Result<Seq<char>, Stop>
    decreases parent, 0int, components.len(),
{
    if components.len() == 0 {
        Ok(Seq::empty())
    } else if components[0] < parent {
        let sep: Seq<char> = if separate { ", "@ } else { Seq::empty() };
        match expr_text(sc, calls, components[0] as int) {
            Err(e) => Err(after(sep, e)),
            Ok(x) => prepend(sep + x, components_text(sc, calls, parent, components.drop_first(), true)),
        }
    } else {
        Ok(Seq::empty())
    }
}


// --------------------------------------------------------- statements

/// The names given to call results so far, and how many were generated.
#[verifier::ext_equal]
pub struct CallState {
    pub calls: Seq<(usize, Seq<char>)>,
    pub counter: nat,
}

/// What writing a function body reads.
pub struct BodyScope {
    pub types: Seq<Type>,
    pub names: NameTable,
    /// The module's functions (callees).
    pub functions: Seq<Function>,
    pub kind: FunctionKind,
    /// The function whose body this is.
    pub function: Function,
    /// The type of each expression of the function.
    pub resolutions: Seq<TypeResolution>,
}

pub open spec fn body_exprs(bs: BodyScope) -> ExprScope {
    ExprScope {
        types: bs.types,
        names: bs.names,
        kind: Some(bs.kind),
        resolutions: bs.resolutions,
        arena: bs.function.expressions@,
    }
}

/// `text` followed by what `rest` gives, or the error of `rest`.
pub open spec fn prepend_state(
    text: Seq<char>,
    rest: Result<(Seq<char>, CallState), Stop>,
) -> Result<(Seq<char>, CallState), Stop> {
    match rest {
        Ok((r, st)) => Ok((text + r, st)),
        Err(e) => Err(after(text, e)),
    }
}

/// The name that the source gave to expression `handle`, if any.
pub open spec fn find_named(named: Seq<(usize, String)>, handle: usize) -> Option<Seq<char>>
    decreases named.len(),
{
    if named.len() == 0 {
        None
    } else if named[0].0 == handle {
        Some(named[0].1@)
    } else {
        find_named(named.drop_first(), handle)
    }
}

/// The name generated for a call result of `callee` when `counter` names
/// have been generated before it in the function: the callee's name, `_`
/// and the number.
pub open spec fn generated_name(bs: BodyScope, callee: usize, counter: nat) -> Seq<char> {
    bs.names.text(NameKey::Function(callee)) + "_"@ + decimal(counter)
}

/// The name of call result `result`: the one it already has; else the name
/// the source gave it; else the callee's name, `_` and the next number.
pub open spec fn call_result_name(bs: BodyScope, st: CallState, result: usize, callee: usize) -> (Seq<char>, CallState) {
    match find_call(st.calls, result) {
        Some(name) => (name, st),
        None => match find_named(bs.function.named_expressions@, result) {
            Some(name) => (name, CallState { calls: st.calls.push((result, name)), counter: st.counter }),
            None => {
                let generated = generated_name(bs, callee, st.counter);
                (generated, CallState { calls: st.calls.push((result, generated)), counter: st.counter + 1 })
            },
        },
    }
}

/// Call arguments, each but the first preceded by a comma (the first too
/// when `separate`).
pub open spec fn arguments_text(
    bs: BodyScope,
    calls: Seq<(usize, Seq<char>)>,
    arguments: Seq<usize>,
    separate: bool,
) -> Result<Seq<char>, Stop>
    decreases arguments.len(),
{
    if arguments.len() == 0 {
        Ok(Seq::empty())
    } else {
        let sep: Seq<char> = if separate { ", "@ } else { Seq::empty() };
        match expr_text(body_exprs(bs), calls, arguments[0] as int) {
            Err(e) => Err(after(sep, e)),
            Ok(x) => prepend(sep + x, arguments_text(bs, calls, arguments.drop_first(), true)),
        }
    }
}

pub open spec fn call_text(
    bs: BodyScope,
    calls: Seq<(usize, Seq<char>)>,
    function: usize,
    arguments: Seq<usize>,
) -> Result<Seq<char>, Stop> {
    let open = bs.names.text(NameKey::Function(function)) + "("@;
    match arguments_text(bs, calls, arguments, false) {
        Err(e) => Err(after(open, e)),
        Ok(a) => Ok(open + a + ")"@),
    }
}

/// The C++ text of a statement at `indent`, and the call state after it.
pub open spec fn stmt_text(bs: BodyScope, stmt: Statement, indent: nat, st: CallState) -> Result<(Seq<char>, CallState), Stop>
    decreases stmt, 3int,
{
    let sc = body_exprs(bs);
    let ind = indent_text(indent);
    match stmt {
        Statement::Emit => Ok((Seq::empty(), st)),
        Statement::Block(block) => match block_text(bs, block@, indent + 1, st) {
            Err(e) => Err(after(ind + "{"@ + "\n"@, e)),
            Ok((b, st1)) => Ok((ind + "{"@ + "\n"@ + b + ind + "}"@ + "\n"@, st1)),
        },
        Statement::If { .. } => if_text(bs, stmt, indent, st),
        Statement::Return { value } => match value {
            None => Ok((ind + "return"@ + ";"@ + "\n"@, st)),
            Some(v) => match expr_text(sc, st.calls, v as int) {
                Err(e) => Err(after(ind + "return"@ + " "@, e)),
                Ok(x) => Ok((ind + "return"@ + " "@ + x + ";"@ + "\n"@, st)),
            },
        },
        Statement::Loop { .. } => loop_text(bs, stmt, indent, st),
        Statement::Break => Ok((ind + "break;"@ + "\n"@, st)),
        Statement::Continue => Ok((ind + "continue;"@ + "\n"@, st)),
        Statement::Store { pointer, value } => match expr_text(sc, st.calls, pointer as int) {
            Err(e) => Err(after(ind, e)),
            Ok(p) => match expr_text(sc, st.calls, value as int) {
                Err(e) => Err(after(ind + p + " = "@, e)),
                Ok(v) => Ok((ind + p + " = "@ + v + ";"@ + "\n"@, st)),
            },
        },
        Statement::Call { function, arguments, result } => call_stmt_text(bs, function, arguments@, result, indent, st),
        Statement::Other => Ok((ind + "// Unsupported statement"@ + "\n"@, st)),
    }
}

/// An `if` statement: the condition, the accepted block and, when it is not
/// empty, the rejected block.
pub open spec fn if_text(bs: BodyScope, stmt: Statement, indent: nat, st: CallState) -> Result<(Seq<char>, CallState), Stop>
    decreases stmt, 2int,
{
    let ind = indent_text(indent);
    match stmt {
        Statement::If { condition, accept, reject } => match expr_text(body_exprs(bs), st.calls, condition as int) {
            Err(e) => Err(after(ind + "if ("@, e)),
            Ok(c) => prepend_state(ind + "if ("@ + c + ") {"@ + "\n"@, if_blocks_text(bs, stmt, indent, st)),
        },
        _ => Ok((Seq::empty(), st)),
    }
}

/// The blocks of an `if` statement after its condition: the accepted
/// block, then the rest of the statement.
pub open spec fn if_blocks_text(bs: BodyScope, stmt: Statement, indent: nat, st: CallState) -> Result<(Seq<char>, CallState), Stop>
    decreases stmt, 1int,
{
    match stmt {
        Statement::If { accept, .. } => match block_text(bs, accept@, indent + 1, st) {
            Err(e) => Err(e),
            Ok((a, st1)) => prepend_state(a, else_text(bs, stmt, indent, st1)),
        },
        _ => Ok((Seq::empty(), st)),
    }
}

/// What ends an `if` statement: when the rejected block is not empty,
/// `} else {` and the rejected block; then the closing brace.
pub open spec fn else_text(bs: BodyScope, stmt: Statement, indent: nat, st: CallState) -> Result<(Seq<char>, CallState), Stop>
    decreases stmt, 0int,
{
    let ind = indent_text(indent);
    match stmt {
        Statement::If { reject, .. } => {
            if reject.len() > 0 {
                match block_text(bs, reject@, indent + 1, st) {
                    Err(e) => Err(after(ind + "} else {"@ + "\n"@, e)),
                    Ok((r, st2)) => Ok((ind + "} else {"@ + "\n"@ + r + ind + "}"@ + "\n"@, st2)),
                }
            } else {
                Ok((ind + "}"@ + "\n"@, st))
            }
        },
        _ => Ok((Seq::empty(), st)),
    }
}

/// The `if (..) { break; }` that ends a loop with a break condition.
pub open spec fn break_if_text(bs: BodyScope, break_if: Option<usize>, indent: nat, calls: Seq<(usize, Seq<char>)>) -> Result<Seq<char>, Stop> {
    let inner = indent_text(indent + 1);
    match break_if {
        None => Ok(Seq::empty()),
        Some(cond) => match expr_text(body_exprs(bs), calls, cond as int) {
            Err(e) => Err(after(inner + "if ("@, e)),
            Ok(x) => Ok(
                inner + "if ("@ + x + ") {"@ + "\n"@ + inner + "    break;"@ + "\n"@ + inner + "}"@
                    + "\n"@,
            ),
        },
    }
}

/// A loop: `while (true)` around the body, then the rest of the loop.
pub open spec fn loop_text(bs: BodyScope, stmt: Statement, indent: nat, st: CallState) -> Result<(Seq<char>, CallState), Stop>
    decreases stmt, 2int,
{
    let ind = indent_text(indent);
    match stmt {
        Statement::Loop { body, .. } => match block_text(bs, body@, indent + 1, st) {
            Err(e) => Err(after(ind + "while (true) {"@ + "\n"@, e)),
            Ok((b, st1)) => prepend_state(ind + "while (true) {"@ + "\n"@ + b, loop_tail_text(bs, stmt, indent, st1)),
        },
        _ => Ok((Seq::empty(), st)),
    }
}

/// What follows a loop's body: the continuing block, the break condition
/// and the closing brace.
pub open spec fn loop_tail_text(bs: BodyScope, stmt: Statement, indent: nat, st: CallState) -> Result<(Seq<char>, CallState), Stop>
    decreases stmt, 1int,
{
    let ind = indent_text(indent);
    match stmt {
        Statement::Loop { continuing, break_if, .. } => {
            let cont = if continuing.len() > 0 {
                block_text(bs, continuing@, indent + 1, st)
            } else {
                Ok((Seq::empty(), st))
            };
            match cont {
                Err(e) => Err(e),
                Ok((c, st2)) => match break_if_text(bs, break_if, indent, st2.calls) {
                    Err(e) => Err(after(c, e)),
                    Ok(x) => Ok((c + x + ind + "}"@ + "\n"@, st2)),
                },
            }
        },
        _ => Ok((Seq::empty(), st)),
    }
}

/// A call statement; a call whose result is used declares a variable of
/// the callee's result type that holds it.
pub open spec fn call_stmt_text(
    bs: BodyScope,
    function: usize,
    arguments: Seq<usize>,
    result: Option<usize>,
    indent: nat,
    st: CallState,
) -> Result<(Seq<char>, CallState), Stop> {
    let ind = indent_text(indent);
    match result {
        Some(r) => {
            let (name, st1) = call_result_name(bs, st, r, function);
            match bs.functions[function as int].result {
                None => Err(unsupported("call with result from void function"@)),
                Some(callee_result) => match type_text(bs.types, callee_result.ty as int) {
                    Err(e) => Err(after(ind, e)),
                    Ok(t) => match call_text(bs, st1.calls, function, arguments) {
                        Err(e) => Err(after(ind + t + " "@ + name + " = "@, e)),
                        Ok(c) => Ok((ind + t + " "@ + name + " = "@ + c + ";"@ + "\n"@, st1)),
                    },
                },
            }
        },
        None => match call_text(bs, st.calls, function, arguments) {
            Err(e) => Err(after(ind, e)),
            Ok(c) => Ok((ind + c + ";"@ + "\n"@, st)),
        },
    }
}

/// The C++ text of a block of statements at `indent`, and the call state
/// after it.
pub open spec fn block_text(bs: BodyScope, stmts: Seq<Statement>, indent: nat, st: CallState) -> Result<(Seq<char>, CallState), Stop>
    decreases stmts, 4int,
{
    if stmts.len() == 0 {
        Ok((Seq::empty(), st))
    } else {
        match stmt_text(bs, stmts[0], indent, st) {
            Err(e) => Err(e),
            Ok((t, st1)) => prepend_state(t, block_text(bs, stmts.drop_first(), indent, st1)),
        }
    }
}


// ---------------------------------------------------------- functions

/// Parameters `i..` of function `handle`: type and name, separated by
/// commas.
pub open spec fn parameters_from(m: Module, handle: usize, i: nat) -> Result<Seq<char>, Stop>
    decreases m.functions@[handle as int].arguments@.len() - i,
{
    let args = m.functions@[handle as int].arguments@;
    if i >= args.len() {
        Ok(Seq::empty())
    } else {
        let sep: Seq<char> = if i > 0 { ", "@ } else { Seq::empty() };
        match type_text(m.types@, args[i as int].ty as int) {
            Err(e) => Err(after(sep, e)),
            Ok(t) => prepend(
                sep + t + " "@ + m.names.text(NameKey::FunctionArgument(handle, i as u32)),
                parameters_from(m, handle, i + 1),
            ),
        }
    }
}

/// Declarations of local variables `i..` of the function being written.
pub open spec fn locals_from(bs: BodyScope, calls: Seq<(usize, Seq<char>)>, indent: nat, i: nat) -> Result<Seq<char>, Stop>
    decreases bs.function.local_variables@.len() - i,
{
    let locals = bs.function.local_variables@;
    if i >= locals.len() {
        Ok(Seq::empty())
    } else {
        let local = locals[i as int];
        match type_text(bs.types, local.ty as int) {
            Err(e) => Err(after(indent_text(indent), e)),
            Ok(t) => {
                let head = indent_text(indent) + t + " "@ + bs.names.text(local_key(bs.kind, i as usize));
                let init = match local.init {
                    None => Ok(Seq::empty()),
                    Some(init) => match expr_text(body_exprs(bs), calls, init as int) {
                        Err(e) => Err(after(" = "@, e)),
                        Ok(x) => Ok(" = "@ + x),
                    },
                };
                match init {
                    Err(e) => Err(after(head, e)),
                    Ok(x) => prepend(head + x + ";"@ + "\n"@, locals_from(bs, calls, indent, i + 1)),
                }
            },
        }
    }
}

/// Declarations of the function's local variables, then an empty line;
/// nothing when there are none.
pub open spec fn local_declarations_text(bs: BodyScope, calls: Seq<(usize, Seq<char>)>, indent: nat) -> Result<Seq<char>, Stop> {
    if bs.function.local_variables@.len() == 0 {
        Ok(Seq::empty())
    } else {
        match locals_from(bs, calls, indent, 0) {
            Err(e) => Err(e),
            Ok(l) => Ok(l + "\n"@),
        }
    }
}

/// No call result has a name yet.
pub open spec fn fresh_calls() -> CallState {
    CallState { calls: Seq::empty(), counter: 0 }
}

/// The local declarations and the statements of a body, then the closing
/// brace and an empty line; call results are named afresh.
pub open spec fn body_text(bs: BodyScope) -> Result<(Seq<char>, CallState), Stop> {
    match local_declarations_text(bs, fresh_calls().calls, 1) {
        Err(e) => Err(e),
        Ok(l) => match block_text(bs, bs.function.body@, 1, fresh_calls()) {
            Err(e) => Err(after(l, e)),
            Ok((b, st)) => Ok((l + b + "}"@ + "\n"@ + "\n"@, st)),
        },
    }
}

/// The scope of function `handle`'s body.
pub open spec fn function_scope(m: Module, info: ModuleInfo, handle: usize) -> BodyScope {
    BodyScope {
        types: m.types@,
        names: m.names,
        functions: m.functions@,
        kind: FunctionKind::Function(handle),
        function: m.functions@[handle as int],
        resolutions: info.functions@[handle as int].expressions@,
    }
}

/// The definition of function `handle`.
pub open spec fn function_text(m: Module, info: ModuleInfo, handle: usize) -> Result<(Seq<char>, CallState), Stop> {
    let f = m.functions@[handle as int];
    let ret = match f.result {
        Some(result) => type_text(m.types@, result.ty as int),
        None => Ok("void"@),
    };
    match ret {
        Err(e) => Err(e),
        Ok(rt) => {
            let open = rt + " "@ + m.names.text(NameKey::Function(handle)) + "("@;
            match parameters_from(m, handle, 0) {
                Err(e) => Err(after(open, e)),
                Ok(ps) => prepend_state(open + ps + ") {"@ + "\n"@, body_text(function_scope(m, info, handle))),
            }
        },
    }
}

/// The 16-bit index by which entry point `index` is named.
pub open spec fn entry_point_index(index: usize) -> u16 {
    index as u16
}

/// The scope of entry point `index`'s body.
pub open spec fn entry_point_scope(m: Module, info: ModuleInfo, index: usize) -> BodyScope {
    BodyScope {
        types: m.types@,
        names: m.names,
        functions: m.functions@,
        kind: FunctionKind::EntryPoint(entry_point_index(index)),
        function: m.entry_points@[index as int].function,
        resolutions: info.entry_points@[entry_point_index(index) as int].expressions@,
    }
}

/// The definition of entry point `index`: a `void` function without
/// parameters. Only compute shaders are accepted.
pub open spec fn entry_point_text(m: Module, info: ModuleInfo, index: usize) -> Result<(Seq<char>, CallState), Stop> {
    let ep = m.entry_points@[index as int];
    if ep.stage != ShaderStage::Compute {
        Err(Stop { refusal: Refusal::InvalidStage(ep.stage), written: Seq::empty() })
    } else {
        prepend_state(
            "void "@ + m.names.text(NameKey::EntryPoint(entry_point_index(index))) + "() {"@ + "\n"@,
            body_text(entry_point_scope(m, info, index)),
        )
    }
}

// ------------------------------------------------------------- module

/// The scope of module-level expressions.
pub open spec fn module_scope(m: Module, info: ModuleInfo) -> ExprScope {
    ExprScope {
        types: m.types@,
        names: m.names,
        kind: None,
        resolutions: info.const_expression_types@,
        arena: m.global_expressions@,
    }
}

/// Definitions of types `i..`.
pub open spec fn type_definitions_from(types: Seq<Type>, i: nat) -> Result<Seq<char>, Stop>
    decreases types.len() - i,
{
    if i >= types.len() {
        Ok(Seq::empty())
    } else {
        match type_definition_text(types, types[i as int]) {
            Err(e) => Err(e),
            Ok(t) => prepend(t, type_definitions_from(types, i + 1)),
        }
    }
}

/// The declaration of constant `handle`.
pub open spec fn constant_text(m: Module, info: ModuleInfo, calls: Seq<(usize, Seq<char>)>, handle: usize) -> Result<Seq<char>, Stop> {
    let c = m.constants@[handle as int];
    match type_text(m.types@, c.ty as int) {
        Err(e) => Err(after("constexpr "@, e)),
        Ok(t) => {
            let head = "constexpr "@ + t + " "@ + m.names.text(NameKey::Constant(handle)) + " = "@;
            match expr_text(module_scope(m, info), calls, c.init as int) {
                Err(e) => Err(after(head, e)),
                Ok(x) => Ok(head + x + ";"@ + "\n"@),
            }
        },
    }
}

/// Declarations of constants `i..`.
pub open spec fn constants_from(m: Module, info: ModuleInfo, calls: Seq<(usize, Seq<char>)>, i: nat) -> Result<Seq<char>, Stop>
    decreases m.constants@.len() - i,
{
    if i >= m.constants@.len() {
        Ok(Seq::empty())
    } else {
        match constant_text(m, info, calls, i as usize) {
            Err(e) => Err(e),
            Ok(t) => prepend(t, constants_from(m, info, calls, i + 1)),
        }
    }
}

/// Variables in these address spaces become C++ variables; the others
/// (workgroup memory, resources) are left out.
pub open spec fn declared_space(space: AddressSpace) -> bool {
    match space {
        AddressSpace::Storage | AddressSpace::Uniform | AddressSpace::Private | AddressSpace::Function => true,
        _ => false,
    }
}

/// The declaration of global variable `handle`.
pub open spec fn global_variable_text(m: Module, info: ModuleInfo, calls: Seq<(usize, Seq<char>)>, handle: usize) -> Result<Seq<char>, Stop> {
    let v = m.global_variables@[handle as int];
    if declared_space(v.space) {
        match type_text(m.types@, v.ty as int) {
            Err(e) => Err(e),
            Ok(t) => {
                let head = t + " "@ + m.names.text(NameKey::GlobalVariable(handle));
                match v.init {
                    None => Ok(head + ";"@ + "\n"@),
                    Some(init) => match expr_text(module_scope(m, info), calls, init as int) {
                        Err(e) => Err(after(head + " = "@, e)),
                        Ok(x) => Ok(head + " = "@ + x + ";"@ + "\n"@),
                    },
                }
            },
        }
    } else {
        Ok(Seq::empty())
    }
}

/// Declarations of global variables `i..`.
pub open spec fn global_variables_from(m: Module, info: ModuleInfo, calls: Seq<(usize, Seq<char>)>, i: nat) -> Result<Seq<char>, Stop>
    decreases m.global_variables@.len() - i,
{
    if i >= m.global_variables@.len() {
        Ok(Seq::empty())
    } else {
        match global_variable_text(m, info, calls, i as usize) {
            Err(e) => Err(e),
            Ok(t) => prepend(t, global_variables_from(m, info, calls, i + 1)),
        }
    }
}

/// Definitions of functions `i..`; each leaves the call state that the next
/// one starts from.
pub open spec fn functions_from(m: Module, info: ModuleInfo, i: nat, st: CallState) -> Result<(Seq<char>, CallState), Stop>
    decreases m.functions@.len() - i,
{
    if i >= m.functions@.len() {
        Ok((Seq::empty(), st))
    } else {
        match function_text(m, info, i as usize) {
            Err(e) => Err(e),
            Ok((t, st1)) => prepend_state(t, functions_from(m, info, i + 1, st1)),
        }
    }
}

/// Definitions of entry points `i..`.
pub open spec fn entry_points_from(m: Module, info: ModuleInfo, i: nat, st: CallState) -> Result<(Seq<char>, CallState), Stop>
    decreases m.entry_points@.len() - i,
{
    if i >= m.entry_points@.len() {
        Ok((Seq::empty(), st))
    } else {
        match entry_point_text(m, info, i as usize) {
            Err(e) => Err(e),
            Ok((t, st1)) => prepend_state(t, entry_points_from(m, info, i + 1, st1)),
        }
    }
}

/// The first line of every output.
pub open spec fn header_text() -> Seq<char> {
    "#include \"wgsl_runtime.hpp\""@ + "\n"@ + "\n"@
}

/// What precedes the functions: type definitions, constants (then an empty
/// line, if there are any) and global variables.
pub open spec fn declarations_text(m: Module, info: ModuleInfo, calls: Seq<(usize, Seq<char>)>) -> Result<Seq<char>, Stop> {
    match type_definitions_from(m.types@, 0) {
        Err(e) => Err(e),
        Ok(td) => match constants_from(m, info, calls, 0) {
            Err(e) => Err(after(td, e)),
            Ok(ct) => {
                let sep = if m.constants@.len() > 0 { "\n"@ } else { Seq::empty() };
                match global_variables_from(m, info, calls, 0) {
                    Err(e) => Err(after(td + ct + sep, e)),
                    Ok(gt) => Ok(td + ct + sep + gt),
                }
            },
        },
    }
}

/// The C++ text of a module: the runtime include, the declarations, the
/// functions and the entry points. Module-level expressions see the call
/// results named in `st`, the state the writer starts from.
pub open spec fn module_text(m: Module, info: ModuleInfo, st: CallState) -> Result<(Seq<char>, CallState), Stop> {
    match declarations_text(m, info, st.calls) {
        Err(e) => Err(after(header_text(), e)),
        Ok(decls) => match functions_from(m, info, 0, st) {
            Err(e) => Err(after(header_text() + decls, e)),
            Ok((ft, st1)) => prepend_state(header_text() + decls + ft, entry_points_from(m, info, 0, st1)),
        },
    }
}

} // verus!
