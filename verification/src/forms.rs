//! How the parts of a module are laid out in its text: operands and blocks
//! in their place, and definitions in the order of their arenas.
use vstd::prelude::*;
use crate::conv::binary_op_text;
use crate::ir::{AddressSpace, Expression, Module, ModuleInfo, NameKey, Statement, Type};
use crate::laws::{occurs_in, lemma_occurs_in_context};
use crate::render::{
    after, block_text, body_exprs, break_if_text, constant_text, constants_from, entry_point_text,
    entry_points_from, declarations_text, expr_text, function_text, functions_from,
    global_variable_text, global_variables_from, header_text, module_scope, module_text,
    prepend, prepend_state, stmt_text, type_definition_text, type_definitions_from, type_text,
    BodyScope, CallState, ExprScope, Stop,
};
use crate::text::indent_text;

verus! {

// ------------------------------------------------------------ operands

/// A binary expression is written as its left operand, the operator and
/// its right operand, in that order and in parentheses, whatever the
/// operator; a refusal in an operand stops the expression after what was
/// written before that operand.
pub proof fn lemma_binary_operands_in_order(sc: ExprScope, calls: Seq<(usize, Seq<char>)>, h: int)
    requires
        0 <= h < sc.arena.len(),
    ensures
        sc.arena[h] matches Expression::Binary { op, left, right } ==> left < h ==> right < h
            ==> expr_text(sc, calls, h) == match expr_text(sc, calls, left as int) {
                Err(e) => Err(after("("@, e)),
                Ok(l) => match expr_text(sc, calls, right as int) {
                    Err(e) => Err(after("("@ + l + " "@ + binary_op_text(op) + " "@, e)),
                    Ok(r) => Ok::<Seq<char>, Stop>("("@ + l + " "@ + binary_op_text(op) + " "@ + r + ")"@),
                },
            },
{
}

// --------------------------------------------------------------- loops

/// What follows a loop's body: its continuing block whenever that block is
/// not empty (whether or not the loop has a break condition), then its
/// break condition and the closing brace.
pub proof fn lemma_loop_tail_layout(
    bs: BodyScope,
    body: Vec<Statement>,
    continuing: Vec<Statement>,
    break_if: Option<usize>,
    indent: nat,
    st1: CallState,
)
    ensures
        ({
            let stmt = Statement::Loop { body, continuing, break_if };
            let ind = indent_text(indent);
            &&& continuing@.len() > 0 ==> crate::render::loop_tail_text(bs, stmt, indent, st1) == match block_text(bs, continuing@, indent + 1, st1) {
                Err(e) => Err(e),
                Ok((c, st2)) => match break_if_text(bs, break_if, indent, st2.calls) {
                    Err(e) => Err(after(c, e)),
                    Ok(x) => Ok::<(Seq<char>, CallState), Stop>((c + x + ind + "}"@ + "\n"@, st2)),
                },
            }
            &&& continuing@.len() == 0 ==> crate::render::loop_tail_text(bs, stmt, indent, st1) == match break_if_text(bs, break_if, indent, st1.calls) {
                Err(e) => Err(e),
                Ok(x) => Ok::<(Seq<char>, CallState), Stop>((x + ind + "}"@ + "\n"@, st1)),
            }
        }),
{
    let ind = indent_text(indent);
    if continuing@.len() == 0 {
        match break_if_text(bs, break_if, indent, st1.calls) {
            Err(e) => {
                assert(Seq::<char>::empty() + e.written =~= e.written);
            },
            Ok(x) => {
                assert(Seq::<char>::empty() + x + ind + "}"@ + "\n"@ =~= x + ind + "}"@ + "\n"@);
            },
        }
    }
}

/// A loop is written as `while (true) {` and its body, followed by what
/// `lemma_loop_tail_layout` gives: the continuing block whenever it is not
/// empty, the break condition and the closing brace.
pub proof fn lemma_loop_layout(
    bs: BodyScope,
    body: Vec<Statement>,
    continuing: Vec<Statement>,
    break_if: Option<usize>,
    indent: nat,
    st: CallState,
)
    ensures
        ({
            let stmt = Statement::Loop { body, continuing, break_if };
            let open = indent_text(indent) + "while (true) {"@ + "\n"@;
            &&& stmt_text(bs, stmt, indent, st) == crate::render::loop_text(bs, stmt, indent, st)
            &&& crate::render::loop_text(bs, stmt, indent, st) == match block_text(bs, body@, indent + 1, st) {
                Err(e) => Err(after(open, e)),
                Ok((b, st1)) => prepend_state(open + b, crate::render::loop_tail_text(bs, stmt, indent, st1)),
            }
        }),
{
    lemma_loop_tail_layout(bs, body, continuing, break_if, indent, st);
}

// --------------------------------------------------- definitions in order

/// `prepend` of `a` and then `b` is `prepend` of `a + b`.
proof fn lemma_prepend_twice(a: Seq<char>, b: Seq<char>, rest: Result<Seq<char>, Stop>)
    ensures
        prepend(a, prepend(b, rest)) == prepend(a + b, rest),
{
    match rest {
        Ok(r) => {
            assert(a + (b + r) =~= (a + b) + r);
        },
        Err(e) => {
            assert(a + (b + e.written) =~= (a + b) + e.written);
        },
    }
}

/// `prepend_state` of `a` and then `b` is `prepend_state` of `a + b`.
proof fn lemma_prepend_state_twice(a: Seq<char>, b: Seq<char>, rest: Result<(Seq<char>, CallState), Stop>)
    ensures
        prepend_state(a, prepend_state(b, rest)) == prepend_state(a + b, rest),
{
    match rest {
        Ok((r, _)) => {
            assert(a + (b + r) =~= (a + b) + r);
        },
        Err(e) => {
            assert(a + (b + e.written) =~= (a + b) + e.written);
        },
    }
}

/// The definitions of types `0..n`, the first first.
pub open spec fn definitions_before(types: Seq<Type>, n: nat) -> Seq<char>
    decreases n,
{
    if n == 0 {
        Seq::empty()
    } else {
        definitions_before(types, (n - 1) as nat) + type_definition_text(types, types[n - 1])->Ok_0
    }
}

proof fn lemma_definitions_prefix(types: Seq<Type>, k: nat)
    requires
        k <= types.len(),
        forall|i: int| 0 <= i < types.len() ==> (#[trigger] type_definition_text(types, types[i])) is Ok,
    ensures
        type_definitions_from(types, 0) == prepend(definitions_before(types, k), type_definitions_from(types, k)),
    decreases k,
{
    if k == 0 {
        match type_definitions_from(types, 0) {
            Ok(r) => {
                assert(Seq::<char>::empty() + r =~= r);
            },
            Err(e) => {
                assert(Seq::<char>::empty() + e.written =~= e.written);
            },
        }
    } else {
        lemma_definitions_prefix(types, (k - 1) as nat);
        assert(type_definition_text(types, types[k - 1]) is Ok);
        lemma_prepend_twice(
            definitions_before(types, (k - 1) as nat),
            type_definition_text(types, types[k - 1])->Ok_0,
            type_definitions_from(types, k),
        );
    }
}

/// Named structures are defined in the order of the type arena: when no
/// definition is refused, the definitions are those of types `0, 1, ...`
/// one after another, so a structure is defined before every structure
/// after it in the arena (and so before any that uses it as a member).
pub proof fn lemma_definitions_in_arena_order(types: Seq<Type>)
    requires
        forall|i: int| 0 <= i < types.len() ==> (#[trigger] type_definition_text(types, types[i])) is Ok,
    ensures
        type_definitions_from(types, 0) == Ok::<Seq<char>, Stop>(definitions_before(types, types.len())),
{
    lemma_definitions_prefix(types, types.len());
    assert(definitions_before(types, types.len()) + Seq::<char>::empty() =~= definitions_before(types, types.len()));
}

/// The definitions of functions `0..n`, the first first.
pub open spec fn functions_before(m: Module, info: ModuleInfo, n: nat) -> Seq<char>
    decreases n,
{
    if n == 0 {
        Seq::empty()
    } else {
        functions_before(m, info, (n - 1) as nat) + function_text(m, info, (n - 1) as usize)->Ok_0.0
    }
}

/// The call state after functions `0..n`.
pub open spec fn state_after_functions(m: Module, info: ModuleInfo, n: nat, st: CallState) -> CallState {
    if n == 0 {
        st
    } else {
        function_text(m, info, (n - 1) as usize)->Ok_0.1
    }
}

proof fn lemma_functions_prefix(m: Module, info: ModuleInfo, st: CallState, k: nat)
    requires
        k <= m.functions@.len(),
        forall|i: nat| i < m.functions@.len() ==> (#[trigger] function_text(m, info, i as usize)) is Ok,
    ensures
        functions_from(m, info, 0, st) == prepend_state(
            functions_before(m, info, k),
            functions_from(m, info, k, state_after_functions(m, info, k, st)),
        ),
    decreases k,
{
    assert(m.functions.len() == m.functions@.len());
    if k == 0 {
        match functions_from(m, info, 0, st) {
            Ok((r, _)) => {
                assert(Seq::<char>::empty() + r =~= r);
            },
            Err(e) => {
                assert(Seq::<char>::empty() + e.written =~= e.written);
            },
        }
    } else {
        let j = (k - 1) as nat;
        lemma_functions_prefix(m, info, st, j);
        assert(function_text(m, info, j as usize) is Ok);
        let (t, s) = function_text(m, info, j as usize)->Ok_0;
        assert(functions_from(m, info, j, state_after_functions(m, info, j, st)) == prepend_state(
            t,
            functions_from(m, info, k, s),
        ));
        lemma_prepend_state_twice(functions_before(m, info, j), t, functions_from(m, info, k, s));
    }
}

/// Functions are defined in the order of the function arena: when none is
/// refused, the text is the definitions of functions `0, 1, ...` one after
/// another, so a function is defined before every function after it (and
/// so before its callers, which the arena lists after their callees).
pub proof fn lemma_functions_in_arena_order(m: Module, info: ModuleInfo, st: CallState)
    requires
        forall|i: nat| i < m.functions@.len() ==> (#[trigger] function_text(m, info, i as usize)) is Ok,
    ensures
        functions_from(m, info, 0, st) == Ok::<(Seq<char>, CallState), Stop>(
            (functions_before(m, info, m.functions@.len()), state_after_functions(m, info, m.functions@.len(), st)),
        ),
{
    let n = m.functions@.len();
    lemma_functions_prefix(m, info, st, n);
    assert(functions_before(m, info, n) + Seq::<char>::empty() =~= functions_before(m, info, n));
}

/// The declarations of constants `0..n`, the first first.
pub open spec fn constants_before(m: Module, info: ModuleInfo, calls: Seq<(usize, Seq<char>)>, n: nat) -> Seq<char>
    decreases n,
{
    if n == 0 {
        Seq::empty()
    } else {
        constants_before(m, info, calls, (n - 1) as nat) + constant_text(m, info, calls, (n - 1) as usize)->Ok_0
    }
}

proof fn lemma_constants_prefix(m: Module, info: ModuleInfo, calls: Seq<(usize, Seq<char>)>, k: nat)
    requires
        k <= m.constants@.len(),
        forall|i: nat| i < m.constants@.len() ==> (#[trigger] constant_text(m, info, calls, i as usize)) is Ok,
    ensures
        constants_from(m, info, calls, 0) == prepend(constants_before(m, info, calls, k), constants_from(m, info, calls, k)),
    decreases k,
{
    assert(m.constants.len() == m.constants@.len());
    if k == 0 {
        match constants_from(m, info, calls, 0) {
            Ok(r) => {
                assert(Seq::<char>::empty() + r =~= r);
            },
            Err(e) => {
                assert(Seq::<char>::empty() + e.written =~= e.written);
            },
        }
    } else {
        let j = (k - 1) as nat;
        lemma_constants_prefix(m, info, calls, j);
        assert(constant_text(m, info, calls, j as usize) is Ok);
        lemma_prepend_twice(
            constants_before(m, info, calls, j),
            constant_text(m, info, calls, j as usize)->Ok_0,
            constants_from(m, info, calls, k),
        );
    }
}

/// Constants are declared in the order of their arena: when none is
/// refused, the text is the declarations of constants `0, 1, ...` one after
/// another, so a constant is declared before the constants after it.
pub proof fn lemma_constants_in_arena_order(m: Module, info: ModuleInfo, calls: Seq<(usize, Seq<char>)>)
    requires
        forall|i: nat| i < m.constants@.len() ==> (#[trigger] constant_text(m, info, calls, i as usize)) is Ok,
    ensures
        constants_from(m, info, calls, 0) == Ok::<Seq<char>, Stop>(constants_before(m, info, calls, m.constants@.len())),
{
    let n = m.constants@.len();
    lemma_constants_prefix(m, info, calls, n);
    assert(constants_before(m, info, calls, n) + Seq::<char>::empty() =~= constants_before(m, info, calls, n));
}

/// The declarations of global variables `0..n`, the first first.
pub open spec fn globals_before(m: Module, info: ModuleInfo, calls: Seq<(usize, Seq<char>)>, n: nat) -> Seq<char>
    decreases n,
{
    if n == 0 {
        Seq::empty()
    } else {
        globals_before(m, info, calls, (n - 1) as nat) + global_variable_text(m, info, calls, (n - 1) as usize)->Ok_0
    }
}

proof fn lemma_globals_prefix(m: Module, info: ModuleInfo, calls: Seq<(usize, Seq<char>)>, k: nat)
    requires
        k <= m.global_variables@.len(),
        forall|i: nat| i < m.global_variables@.len() ==> (#[trigger] global_variable_text(m, info, calls, i as usize)) is Ok,
    ensures
        global_variables_from(m, info, calls, 0) == prepend(globals_before(m, info, calls, k), global_variables_from(m, info, calls, k)),
    decreases k,
{
    assert(m.global_variables.len() == m.global_variables@.len());
    if k == 0 {
        match global_variables_from(m, info, calls, 0) {
            Ok(r) => {
                assert(Seq::<char>::empty() + r =~= r);
            },
            Err(e) => {
                assert(Seq::<char>::empty() + e.written =~= e.written);
            },
        }
    } else {
        let j = (k - 1) as nat;
        lemma_globals_prefix(m, info, calls, j);
        assert(global_variable_text(m, info, calls, j as usize) is Ok);
        lemma_prepend_twice(
            globals_before(m, info, calls, j),
            global_variable_text(m, info, calls, j as usize)->Ok_0,
            global_variables_from(m, info, calls, k),
        );
    }
}

/// Global variables are declared in the order of their arena: when none is
/// refused, the text is the declarations of variables `0, 1, ...` one after
/// another.
pub proof fn lemma_globals_in_arena_order(m: Module, info: ModuleInfo, calls: Seq<(usize, Seq<char>)>)
    requires
        forall|i: nat| i < m.global_variables@.len() ==> (#[trigger] global_variable_text(m, info, calls, i as usize)) is Ok,
    ensures
        global_variables_from(m, info, calls, 0) == Ok::<Seq<char>, Stop>(globals_before(m, info, calls, m.global_variables@.len())),
{
    let n = m.global_variables@.len();
    lemma_globals_prefix(m, info, calls, n);
    assert(globals_before(m, info, calls, n) + Seq::<char>::empty() =~= globals_before(m, info, calls, n));
}

/// The definitions of entry points `0..n`, the first first.
pub open spec fn entry_points_before(m: Module, info: ModuleInfo, n: nat) -> Seq<char>
    decreases n,
{
    if n == 0 {
        Seq::empty()
    } else {
        entry_points_before(m, info, (n - 1) as nat) + entry_point_text(m, info, (n - 1) as usize)->Ok_0.0
    }
}

/// The call state after entry points `0..n`.
pub open spec fn state_after_entry_points(m: Module, info: ModuleInfo, n: nat, st: CallState) -> CallState {
    if n == 0 {
        st
    } else {
        entry_point_text(m, info, (n - 1) as usize)->Ok_0.1
    }
}

proof fn lemma_entry_points_prefix(m: Module, info: ModuleInfo, st: CallState, k: nat)
    requires
        k <= m.entry_points@.len(),
        forall|i: nat| i < m.entry_points@.len() ==> (#[trigger] entry_point_text(m, info, i as usize)) is Ok,
    ensures
        entry_points_from(m, info, 0, st) == prepend_state(
            entry_points_before(m, info, k),
            entry_points_from(m, info, k, state_after_entry_points(m, info, k, st)),
        ),
    decreases k,
{
    assert(m.entry_points.len() == m.entry_points@.len());
    if k == 0 {
        match entry_points_from(m, info, 0, st) {
            Ok((r, _)) => {
                assert(Seq::<char>::empty() + r =~= r);
            },
            Err(e) => {
                assert(Seq::<char>::empty() + e.written =~= e.written);
            },
        }
    } else {
        let j = (k - 1) as nat;
        lemma_entry_points_prefix(m, info, st, j);
        assert(entry_point_text(m, info, j as usize) is Ok);
        let (t, s) = entry_point_text(m, info, j as usize)->Ok_0;
        assert(entry_points_from(m, info, j, state_after_entry_points(m, info, j, st)) == prepend_state(
            t,
            entry_points_from(m, info, k, s),
        ));
        lemma_prepend_state_twice(entry_points_before(m, info, j), t, entry_points_from(m, info, k, s));
    }
}

/// Entry points are defined in the order of their list: when none is
/// refused, the text is the definitions of entry points `0, 1, ...` one
/// after another.
pub proof fn lemma_entry_points_in_order(m: Module, info: ModuleInfo, st: CallState)
    requires
        forall|i: nat| i < m.entry_points@.len() ==> (#[trigger] entry_point_text(m, info, i as usize)) is Ok,
    ensures
        entry_points_from(m, info, 0, st) == Ok::<(Seq<char>, CallState), Stop>(
            (entry_points_before(m, info, m.entry_points@.len()), state_after_entry_points(m, info, m.entry_points@.len(), st)),
        ),
{
    let n = m.entry_points@.len();
    lemma_entry_points_prefix(m, info, st, n);
    assert(entry_points_before(m, info, n) + Seq::<char>::empty() =~= entry_points_before(m, info, n));
}

// ------------------------------------------------------------------ ifs

/// What ends an `if` statement: `} else {` and the rejected block exactly
/// when that block is not empty, then the closing brace.
pub proof fn lemma_else_layout(
    bs: BodyScope,
    condition: usize,
    accept: Vec<Statement>,
    reject: Vec<Statement>,
    indent: nat,
    st: CallState,
)
    ensures
        ({
            let stmt = Statement::If { condition, accept, reject };
            let ind = indent_text(indent);
            &&& reject@.len() > 0 ==> crate::render::else_text(bs, stmt, indent, st) == match block_text(bs, reject@, indent + 1, st) {
                Err(e) => Err(after(ind + "} else {"@ + "\n"@, e)),
                Ok((r, st2)) => Ok::<(Seq<char>, CallState), Stop>((ind + "} else {"@ + "\n"@ + r + ind + "}"@ + "\n"@, st2)),
            }
            &&& reject@.len() == 0 ==> crate::render::else_text(bs, stmt, indent, st)
                == Ok::<(Seq<char>, CallState), Stop>((ind + "}"@ + "\n"@, st))
        }),
{
}

/// An `if` statement is written as `if (condition) {` and its accepted
/// block, followed by what `lemma_else_layout` gives.
pub proof fn lemma_if_layout(
    bs: BodyScope,
    condition: usize,
    accept: Vec<Statement>,
    reject: Vec<Statement>,
    indent: nat,
    st: CallState,
)
    ensures
        ({
            let stmt = Statement::If { condition, accept, reject };
            let ind = indent_text(indent);
            &&& stmt_text(bs, stmt, indent, st) == crate::render::if_text(bs, stmt, indent, st)
            &&& crate::render::if_text(bs, stmt, indent, st) == match expr_text(body_exprs(bs), st.calls, condition as int) {
                Err(e) => Err(after(ind + "if ("@, e)),
                Ok(c) => prepend_state(ind + "if ("@ + c + ") {"@ + "\n"@, match block_text(bs, accept@, indent + 1, st) {
                    Err(e) => Err(e),
                    Ok((a, st1)) => prepend_state(a, crate::render::else_text(bs, stmt, indent, st1)),
                }),
            }
        }),
{
}

// ----------------------------------------------------------- globals

/// The line that declares global variable `g`: its type, its name, its
/// initializer if it has one, and a semicolon.
pub open spec fn global_declaration(m: Module, info: ModuleInfo, calls: Seq<(usize, Seq<char>)>, g: int) -> Seq<char> {
    let v = m.global_variables@[g];
    let init = match v.init {
        Some(i) => " = "@ + expr_text(module_scope(m, info), calls, i as int)->Ok_0,
        None => Seq::empty(),
    };
    type_text(m.types@, v.ty as int)->Ok_0 + " "@ + m.names.text(NameKey::GlobalVariable(g as usize)) + init + ";"@ + "\n"@
}

/// Variables in these address spaces are C++ variables of the module.
pub open spec fn memory_space(space: AddressSpace) -> bool {
    ||| space is Storage
    ||| space is Uniform
    ||| space is Private
    ||| space is Function
}

proof fn lemma_declarations_occur_from(m: Module, info: ModuleInfo, calls: Seq<(usize, Seq<char>)>, i: nat)
    requires
        global_variables_from(m, info, calls, i) is Ok,
    ensures
        forall|g: int| i <= g < m.global_variables@.len() && memory_space(#[trigger] m.global_variables@[g].space)
            ==> occurs_in(global_declaration(m, info, calls, g), global_variables_from(m, info, calls, i)->Ok_0),
    decreases m.global_variables@.len() - i,
{
    if i < m.global_variables@.len() {
        assert(m.global_variables.len() == m.global_variables@.len());
        let t = global_variable_text(m, info, calls, i as usize)->Ok_0;
        let rest = global_variables_from(m, info, calls, i + 1)->Ok_0;
        let whole = global_variables_from(m, info, calls, i)->Ok_0;
        lemma_declarations_occur_from(m, info, calls, i + 1);
        assert(whole == t + rest);
        assert forall|g: int| i <= g < m.global_variables@.len() && memory_space(#[trigger] m.global_variables@[g].space)
            implies occurs_in(global_declaration(m, info, calls, g), whole) by {
            if g > i {
                lemma_occurs_in_context(global_declaration(m, info, calls, g), t, rest, Seq::empty());
                assert(t + rest + Seq::<char>::empty() =~= whole);
            } else {
                let d = global_declaration(m, info, calls, g);
                assert(t =~= d);
                assert(whole.subrange(0, 0 + d.len() as int) =~= d);
            }
        }
    }
}

/// The declarations of the module hold the line of every variable in a
/// memory address space.
proof fn lemma_declared_in_declarations(m: Module, info: ModuleInfo, calls: Seq<(usize, Seq<char>)>, g: int)
    requires
        declarations_text(m, info, calls) is Ok,
        0 <= g < m.global_variables@.len(),
        memory_space(m.global_variables@[g].space),
    ensures
        occurs_in(global_declaration(m, info, calls, g), declarations_text(m, info, calls)->Ok_0),
{
    let td = type_definitions_from(m.types@, 0)->Ok_0;
    let ct = crate::render::constants_from(m, info, calls, 0)->Ok_0;
    let sep: Seq<char> = if m.constants@.len() > 0 { "\n"@ } else { Seq::empty() };
    let gt = global_variables_from(m, info, calls, 0)->Ok_0;
    assert(declarations_text(m, info, calls)->Ok_0 == td + ct + sep + gt);
    lemma_declarations_occur_from(m, info, calls, 0);
    lemma_occurs_in_context(global_declaration(m, info, calls, g), td + ct + sep, gt, Seq::empty());
    assert((td + ct + sep) + gt + Seq::<char>::empty() =~= td + ct + sep + gt);
}

/// Every global variable in the storage, uniform, private or function
/// address space is declared in the written text, with its type, its
/// name and its initializer.
pub proof fn lemma_memory_globals_declared(m: Module, info: ModuleInfo, st: CallState, g: int)
    requires
        module_text(m, info, st) is Ok,
        0 <= g < m.global_variables@.len(),
        memory_space(m.global_variables@[g].space),
    ensures
        occurs_in(global_declaration(m, info, st.calls, g), module_text(m, info, st)->Ok_0.0),
{
    let calls = st.calls;
    assert(declarations_text(m, info, calls) is Ok);
    let decls = declarations_text(m, info, calls)->Ok_0;
    let (ft, st1) = functions_from(m, info, 0, st)->Ok_0;
    let et = crate::render::entry_points_from(m, info, 0, st1)->Ok_0.0;
    let text = module_text(m, info, st)->Ok_0.0;
    assert(text == header_text() + decls + ft + et);
    lemma_declared_in_declarations(m, info, calls, g);
    lemma_occurs_in_context(global_declaration(m, info, calls, g), header_text(), decls, ft + et);
    assert(header_text() + decls + (ft + et) =~= text);
}

} // verus!
