//! What a module must satisfy for the writer to run to its end: handles in
//! range and referring to earlier items, and a name for every item that the
//! output mentions. A module that has passed validation, named by the namer,
//! satisfies it.
use vstd::prelude::*;
use crate::ir::{
    Expression, Module, ModuleInfo, ShaderStage, Statement, Type, TypeInner,
    TypeResolution,
};
use crate::names::{argument_key, local_key};
use crate::ir::NameKey;
use crate::render::{
    body_exprs, declared_space, entry_point_index, entry_point_scope, function_scope, module_scope,
    BodyScope, ExprScope,
};

verus! {

/// Type `h` refers only to types before it (or, for structure members, to
/// types of the arena).
pub open spec fn type_ok(types: Seq<Type>, h: int) -> bool {
    match types[h].inner {
        TypeInner::Array { base, .. } => base < h,
        TypeInner::Pointer { base, .. } => base < h,
        TypeInner::Struct { members, .. } => forall|i: int|
            0 <= i < members@.len() ==> #[trigger] members@[i].ty < types.len(),
        _ => true,
    }
}

pub open spec fn types_ok(types: Seq<Type>) -> bool {
    forall|h: int| 0 <= h < types.len() ==> #[trigger] type_ok(types, h)
}

pub open spec fn resolution_ok(types: Seq<Type>, resolution: TypeResolution) -> bool {
    match resolution {
        TypeResolution::Handle(t) => t < types.len(),
        TypeResolution::Value(_) => true,
    }
}

/// Expression `h` has a resolved type.
pub open spec fn resolved_ok(sc: ExprScope, h: int) -> bool {
    h < sc.resolutions.len() && resolution_ok(sc.types, sc.resolutions[h])
}

/// Expression `h` refers to earlier expressions only, and to named items.
pub open spec fn expr_ok(sc: ExprScope, h: int) -> bool {
    match sc.arena[h] {
        Expression::Constant(c) => sc.names.has(NameKey::Constant(c)),
        Expression::GlobalVariable(g) => sc.names.has(NameKey::GlobalVariable(g)),
        Expression::LocalVariable(l) => sc.kind is Some && sc.names.has(local_key(sc.kind.unwrap(), l)),
        Expression::FunctionArgument(i) => sc.kind is Some && sc.names.has(argument_key(sc.kind.unwrap(), i)),
        Expression::Binary { left, right, .. } => left < h && right < h,
        Expression::Unary { expr, .. } => expr < h,
        Expression::AccessIndex { base, .. } => base < h,
        Expression::Access { base, index } => base < h && index < h,
        Expression::Load { pointer } => pointer < h,
        Expression::Compose { ty, components } => ty < sc.types.len() && forall|i: int|
            0 <= i < components@.len() ==> #[trigger] components@[i] < h,
        Expression::Splat { value, .. } => value < h && resolved_ok(sc, h),
        Expression::Select { condition, accept, reject } => condition < h && accept < h && reject < h,
        Expression::Math { fun, arg } => arg < h && (fun is Abs ==> resolved_ok(sc, h)),
        _ => true,
    }
}

pub open spec fn arena_ok(sc: ExprScope) -> bool {
    forall|h: int| 0 <= h < sc.arena.len() ==> #[trigger] expr_ok(sc, h)
}


/// A statement at `indent` refers to expressions of the function's arena,
/// calls named functions, and nests no deeper than indentation can count.
pub open spec fn stmt_ok(bs: BodyScope, stmt: Statement, indent: nat) -> bool
    decreases stmt,
{
    let len = bs.function.expressions.len();
    &&& indent < usize::MAX
    &&& match stmt {
        Statement::Block(block) => block_ok(bs, block@, indent + 1),
        Statement::If { condition, accept, reject } => {
            &&& condition < len
            &&& block_ok(bs, accept@, indent + 1)
            &&& block_ok(bs, reject@, indent + 1)
        },
        Statement::Return { value } => match value {
            Some(v) => v < len,
            None => true,
        },
        Statement::Loop { body, continuing, break_if } => {
            &&& block_ok(bs, body@, indent + 1)
            &&& block_ok(bs, continuing@, indent + 1)
            &&& match break_if {
                Some(cond) => cond < len,
                None => true,
            }
        },
        Statement::Store { pointer, value } => pointer < len && value < len,
        Statement::Call { function, arguments, result } => {
            &&& bs.names.has(NameKey::Function(function))
            &&& forall|i: int| 0 <= i < arguments@.len() ==> #[trigger] arguments@[i] < len
            &&& result is Some ==> {
                &&& function < bs.functions.len()
                &&& match bs.functions[function as int].result {
                    Some(callee_result) => callee_result.ty < bs.types.len(),
                    None => true,
                }
            }
        },
        _ => true,
    }
}

pub open spec fn block_ok(bs: BodyScope, stmts: Seq<Statement>, indent: nat) -> bool
    decreases stmts,
{
    if stmts.len() == 0 {
        true
    } else {
        stmt_ok(bs, stmts[0], indent) && block_ok(bs, stmts.drop_first(), indent)
    }
}

/// Local variable `l` has a type, an initializer in the arena and a name.
pub open spec fn local_ok(bs: BodyScope, l: int) -> bool {
    let local = bs.function.local_variables@[l];
    &&& local.ty < bs.types.len()
    &&& match local.init {
        Some(init) => init < bs.function.expressions@.len(),
        None => true,
    }
    &&& bs.names.has(local_key(bs.kind, l as usize))
}

/// A function body: its expressions, local variables and statements.
pub open spec fn body_ok(bs: BodyScope) -> bool {
    &&& arena_ok(body_exprs(bs))
    &&& forall|l: int| 0 <= l < bs.function.local_variables@.len() ==> #[trigger] local_ok(bs, l)
    &&& block_ok(bs, bs.function.body@, 1)
}

/// Argument `i` of function `handle` has a type and a name.
pub open spec fn argument_ok(m: Module, handle: usize, i: int) -> bool {
    &&& m.functions@[handle as int].arguments@[i].ty < m.types@.len()
    &&& m.names.has(NameKey::FunctionArgument(handle, i as u32))
}

pub open spec fn function_ok(m: Module, info: ModuleInfo, handle: usize) -> bool {
    let f = m.functions@[handle as int];
    &&& m.names.has(NameKey::Function(handle))
    &&& match f.result {
        Some(result) => result.ty < m.types@.len(),
        None => true,
    }
    &&& forall|i: int| 0 <= i < f.arguments@.len() ==> #[trigger] argument_ok(m, handle, i)
    &&& body_ok(function_scope(m, info, handle))
}

/// A compute entry point has a name and a well-formed body; the others are
/// refused before anything of them is read.
pub open spec fn entry_point_ok(m: Module, info: ModuleInfo, index: usize) -> bool {
    m.entry_points@[index as int].stage == ShaderStage::Compute ==> {
        &&& m.names.has(NameKey::EntryPoint(entry_point_index(index)))
        &&& body_ok(entry_point_scope(m, info, index))
    }
}

pub open spec fn constant_ok(m: Module, handle: usize) -> bool {
    let c = m.constants@[handle as int];
    &&& c.ty < m.types@.len()
    &&& c.init < m.global_expressions@.len()
    &&& m.names.has(NameKey::Constant(handle))
}

pub open spec fn global_variable_ok(m: Module, handle: usize) -> bool {
    let v = m.global_variables@[handle as int];
    declared_space(v.space) ==> {
        &&& v.ty < m.types@.len()
        &&& match v.init {
            Some(init) => init < m.global_expressions@.len(),
            None => true,
        }
        &&& m.names.has(NameKey::GlobalVariable(handle))
    }
}

/// No key occurs twice among the entries (as in the maps they stand for).
#[verifier::opaque]
pub open spec fn keys_distinct<K, V>(entries: Seq<(K, V)>) -> bool {
    forall|i: int, j: int| 0 <= i < j < entries.len() ==> entries[i].0 != entries[j].0
}

/// The module can be written to its end: every handle is in range and
/// refers backwards, every item that the output names has a name, the
/// validation info has an entry for every function and entry point, and
/// no identifier or source name is given twice to one item.
pub open spec fn module_ok(m: Module, info: ModuleInfo) -> bool {
    &&& keys_distinct(m.names.entries@)
    &&& forall|f: usize| f < m.functions@.len() ==> #[trigger] keys_distinct(m.functions@[f as int].named_expressions@)
    &&& forall|e: usize| e < m.entry_points@.len() ==> #[trigger] keys_distinct(m.entry_points@[e as int].function.named_expressions@)
    &&& types_ok(m.types@)
    &&& arena_ok(module_scope(m, info))
    &&& forall|c: usize| c < m.constants@.len() ==> #[trigger] constant_ok(m, c)
    &&& forall|g: usize| g < m.global_variables@.len() ==> #[trigger] global_variable_ok(m, g)
    &&& info.functions@.len() == m.functions@.len()
    &&& info.entry_points@.len() == m.entry_points@.len()
    &&& forall|f: usize| f < m.functions@.len() ==> #[trigger] function_ok(m, info, f)
    &&& forall|e: usize| e < m.entry_points@.len() ==> #[trigger] entry_point_ok(m, info, e)
}
} // verus!
