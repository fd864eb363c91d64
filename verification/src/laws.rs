//! What holds of every module the backend writes.
use vstd::prelude::*;
use crate::ir::{Expression, Module, ModuleInfo, NameKey, ShaderStage, Statement};
use crate::conv::unary_op_text;
use crate::render::{
    after, block_text, body_exprs, call_result_name, components_text, constants_from, declared_space,
    else_text, function_text, generated_name, global_variables_from, if_blocks_text, if_text,
    loop_tail_text, loop_text,
    module_scope, stmt_text, Stop, declarations_text, entry_point_index, expr_text, ExprScope, entry_point_text, entry_points_from, find_call,
    functions_from, header_text, module_text, BodyScope, CallState, Refusal,
};
use crate::text::{decimal, is_digit, lemma_decimal_denotes};
use crate::valid::{constant_ok, global_variable_ok, module_ok};

verus! {

/// Every text the backend produces begins with the include of the runtime
/// header and an empty line.
pub proof fn lemma_output_begins_with_header(m: Module, info: ModuleInfo, st: CallState)
    requires
        module_text(m, info, st) is Ok,
    ensures
        header_text().len() <= module_text(m, info, st)->Ok_0.0.len(),
        module_text(m, info, st)->Ok_0.0.subrange(0, header_text().len() as int) == header_text(),
{
    let decls = declarations_text(m, info, st.calls)->Ok_0;
    let (ft, st1) = functions_from(m, info, 0, st)->Ok_0;
    let et = entry_points_from(m, info, 0, st1)->Ok_0.0;
    let text = module_text(m, info, st)->Ok_0.0;
    assert(text == header_text() + decls + ft + et);
    assert(text.subrange(0, header_text().len() as int) =~= header_text());
}

/// Entry points `i..` were all written only if each is a compute shader.
proof fn lemma_written_entry_points_are_compute(m: Module, info: ModuleInfo, i: nat, st: CallState)
    requires
        entry_points_from(m, info, i, st) is Ok,
    ensures
        forall|e: int| i <= e < m.entry_points@.len() ==> #[trigger] m.entry_points@[e].stage == ShaderStage::Compute,
    decreases m.entry_points@.len() - i,
{
    if i < m.entry_points@.len() {
        assert(m.entry_points.len() == m.entry_points@.len());
        let (_, st1) = entry_point_text(m, info, i as usize)->Ok_0;
        lemma_written_entry_points_are_compute(m, info, i + 1, st1);
    }
}

/// Only compute shaders are written: when the backend produces a module's
/// text, every entry point of the module is a compute shader.
pub proof fn lemma_written_modules_are_compute_only(m: Module, info: ModuleInfo, st: CallState)
    requires
        module_text(m, info, st) is Ok,
    ensures
        forall|e: int| 0 <= e < m.entry_points@.len() ==> #[trigger] m.entry_points@[e].stage == ShaderStage::Compute,
{
    let (_, st1) = functions_from(m, info, 0, st)->Ok_0;
    lemma_written_entry_points_are_compute(m, info, 0, st1);
}

/// From entry point `i` on, the first one that is not a compute shader is
/// refused with its stage, when those before it are written.
proof fn lemma_entry_points_refuse_stage(m: Module, info: ModuleInfo, i: nat, st: CallState, k: int)
    requires
        i <= k < m.entry_points@.len(),
        m.entry_points@[k].stage != ShaderStage::Compute,
        forall|j: int| i <= j < k ==> (#[trigger] entry_point_text(m, info, j as usize)) is Ok,
    ensures
        entry_points_from(m, info, i, st) matches Err(stop)
            && stop.refusal == Refusal::InvalidStage(m.entry_points@[k].stage),
    decreases k - i,
{
    assert(m.entry_points.len() == m.entry_points@.len());
    if i < k {
        assert(entry_point_text(m, info, i as usize) is Ok);
        let (_, st1) = entry_point_text(m, info, i as usize)->Ok_0;
        lemma_entry_points_refuse_stage(m, info, i + 1, st1, k);
    }
}

/// An entry point that is not a compute shader is refused with its stage:
/// when everything before it is written, writing the module fails with
/// `InvalidStage` of that entry point.
pub proof fn lemma_other_stages_refused(m: Module, info: ModuleInfo, st: CallState, k: int)
    requires
        0 <= k < m.entry_points@.len(),
        m.entry_points@[k].stage != ShaderStage::Compute,
        declarations_text(m, info, st.calls) is Ok,
        functions_from(m, info, 0, st) is Ok,
        forall|j: int| 0 <= j < k ==> (#[trigger] entry_point_text(m, info, j as usize)) is Ok,
    ensures
        module_text(m, info, st) matches Err(stop)
            && stop.refusal == Refusal::InvalidStage(m.entry_points@[k].stage),
{
    let (_, st1) = functions_from(m, info, 0, st)->Ok_0;
    lemma_entry_points_refuse_stage(m, info, 0, st1, k);
}

/// Looking a handle up after a new entry was added at the end finds what
/// it found before, or else the new entry.
proof fn lemma_find_call_push(calls: Seq<(usize, Seq<char>)>, entry: (usize, Seq<char>), handle: usize)
    ensures
        find_call(calls.push(entry), handle) == (match find_call(calls, handle) {
            Some(name) => Some(name),
            None => if entry.0 == handle { Some(entry.1) } else { None },
        }),
    decreases calls.len(),
{
    if calls.len() > 0 {
        assert(calls.push(entry)[0] == calls[0]);
        assert(calls.push(entry).drop_first() =~= calls.drop_first().push(entry));
        lemma_find_call_push(calls.drop_first(), entry, handle);
    } else {
        assert(calls.push(entry)[0] == entry);
        assert(calls.push(entry).drop_first() =~= Seq::<(usize, Seq<char>)>::empty());
        assert(find_call(Seq::<(usize, Seq<char>)>::empty(), handle) is None);
        assert(find_call(calls, handle) is None);
    }
}

/// A call result keeps the name it was first given: asking for its name
/// again, whatever the callee, gives the same name and changes nothing.
pub proof fn lemma_call_result_name_is_stable(
    bs: BodyScope,
    st: CallState,
    result: usize,
    callee: usize,
    other_callee: usize,
)
    ensures
        ({
            let (name, st1) = call_result_name(bs, st, result, callee);
            call_result_name(bs, st1, result, other_callee) == (name, st1)
        }),
{
    let (name, st1) = call_result_name(bs, st, result, callee);
    if find_call(st.calls, result) is None {
        lemma_find_call_push(st.calls, (result, name), result);
    }
}

/// A call result that was given a name is found under that name afterwards.
pub proof fn lemma_named_call_result_is_found(bs: BodyScope, st: CallState, result: usize, callee: usize)
    ensures
        find_call(call_result_name(bs, st, result, callee).1.calls, result)
            == Some(call_result_name(bs, st, result, callee).0),
{
    let (name, st1) = call_result_name(bs, st, result, callee);
    if find_call(st.calls, result) is None {
        lemma_find_call_push(st.calls, (result, name), result);
    }
}

/// Names generated from different numbers differ, whatever the callees:
/// the number after the last `_` of a generated name is the number it was
/// generated from.
pub proof fn lemma_generated_names_differ(
    bs: BodyScope,
    first_callee: usize,
    second_callee: usize,
    first: nat,
    second: nat,
)
    requires
        first != second,
    ensures
        generated_name(bs, first_callee, first) != generated_name(bs, second_callee, second),
{
    reveal_strlit("_");
    let p1 = bs.names.text(NameKey::Function(first_callee)) + "_"@;
    let p2 = bs.names.text(NameKey::Function(second_callee)) + "_"@;
    let d1 = decimal(first);
    let d2 = decimal(second);
    let n1 = p1 + d1;
    let n2 = p2 + d2;
    lemma_decimal_denotes(first);
    lemma_decimal_denotes(second);
    assert(p1[p1.len() - 1] == '_');
    assert(p2[p2.len() - 1] == '_');
    if n1 == n2 {
        if d1.len() == d2.len() {
            assert(n1.subrange(p1.len() as int, n1.len() as int) =~= d1);
            assert(n2.subrange(p2.len() as int, n2.len() as int) =~= d2);
            assert(d1 == d2);
        } else if d1.len() < d2.len() {
            let q = p1.len() - 1;
            assert(n1.len() == n2.len());
            assert(p2.len() <= q < n2.len());
            assert(n1[q] == '_');
            assert(n2[q] == d2[q - p2.len()]);
            assert(is_digit(d2[q - p2.len()]));
        } else {
            let q = p2.len() - 1;
            assert(n1.len() == n2.len());
            assert(p1.len() <= q < n1.len());
            assert(n2[q] == '_');
            assert(n1[q] == d1[q - p1.len()]);
            assert(is_digit(d1[q - p1.len()]));
        }
    }
}

/// Giving a call result its name adds at most one entry and, when the name
/// is generated, uses the current number and moves the count on by one.
pub proof fn lemma_call_result_name_counts(bs: BodyScope, st: CallState, result: usize, callee: usize)
    ensures
        ({
            let (name, st1) = call_result_name(bs, st, result, callee);
            &&& calls_grow(st, st1)
            &&& st1.counter == st.counter
                || (st1.counter == st.counter + 1 && name == generated_name(bs, callee, st.counter))
        }),
{
    let (name, st1) = call_result_name(bs, st, result, callee);
    assert(st1.calls.subrange(0, st.calls.len() as int) =~= st.calls);
}

/// The names of call results only accumulate, and the count of generated
/// names never goes down.
pub open spec fn calls_grow(before: CallState, after: CallState) -> bool {
    &&& before.calls.len() <= after.calls.len()
    &&& after.calls.subrange(0, before.calls.len() as int) == before.calls
    &&& before.counter <= after.counter
}

proof fn lemma_calls_grow_trans(a: CallState, b: CallState, c: CallState)
    requires
        calls_grow(a, b),
        calls_grow(b, c),
    ensures
        calls_grow(a, c),
{
    assert(c.calls.subrange(0, a.calls.len() as int) =~= b.calls.subrange(0, a.calls.len() as int));
}

proof fn lemma_calls_grow_refl(a: CallState)
    ensures
        calls_grow(a, a),
{
    assert(a.calls.subrange(0, a.calls.len() as int) =~= a.calls);
}

/// Writing a statement only adds names of call results.
pub proof fn lemma_statement_keeps_names(bs: BodyScope, stmt: Statement, indent: nat, st: CallState)
    ensures
        stmt_text(bs, stmt, indent, st) matches Ok((_, st1)) ==> calls_grow(st, st1),
    decreases stmt, 3int,
{
    lemma_calls_grow_refl(st);
    match stmt {
        Statement::Block(block) => {
            lemma_block_keeps_names(bs, block@, indent + 1, st);
        },
        Statement::If { .. } => {
            lemma_if_keeps_names(bs, stmt, indent, st);
        },
        Statement::Loop { .. } => {
            lemma_loop_keeps_names(bs, stmt, indent, st);
        },
        Statement::Call { function, result, .. } => {
            if let Some(r) = result {
                lemma_call_result_name_counts(bs, st, r, function);
            }
        },
        _ => {},
    }
}

proof fn lemma_if_keeps_names(bs: BodyScope, stmt: Statement, indent: nat, st: CallState)
    ensures
        if_text(bs, stmt, indent, st) matches Ok((_, st1)) ==> calls_grow(st, st1),
    decreases stmt, 2int,
{
    lemma_calls_grow_refl(st);
    if let Statement::If { .. } = stmt {
        lemma_if_blocks_keep_names(bs, stmt, indent, st);
    }
}

proof fn lemma_if_blocks_keep_names(bs: BodyScope, stmt: Statement, indent: nat, st: CallState)
    ensures
        if_blocks_text(bs, stmt, indent, st) matches Ok((_, st1)) ==> calls_grow(st, st1),
    decreases stmt, 1int,
{
    lemma_calls_grow_refl(st);
    if let Statement::If { accept, .. } = stmt {
        lemma_block_keeps_names(bs, accept@, indent + 1, st);
        if let Ok((_, st1)) = block_text(bs, accept@, indent + 1, st) {
            lemma_else_keeps_names(bs, stmt, indent, st1);
            if let Ok((_, st2)) = else_text(bs, stmt, indent, st1) {
                lemma_calls_grow_trans(st, st1, st2);
            }
        }
    }
}

proof fn lemma_else_keeps_names(bs: BodyScope, stmt: Statement, indent: nat, st: CallState)
    ensures
        else_text(bs, stmt, indent, st) matches Ok((_, st1)) ==> calls_grow(st, st1),
    decreases stmt, 0int,
{
    lemma_calls_grow_refl(st);
    if let Statement::If { reject, .. } = stmt {
        lemma_block_keeps_names(bs, reject@, indent + 1, st);
    }
}

proof fn lemma_loop_keeps_names(bs: BodyScope, stmt: Statement, indent: nat, st: CallState)
    ensures
        loop_text(bs, stmt, indent, st) matches Ok((_, st1)) ==> calls_grow(st, st1),
    decreases stmt, 2int,
{
    lemma_calls_grow_refl(st);
    if let Statement::Loop { body, .. } = stmt {
        lemma_block_keeps_names(bs, body@, indent + 1, st);
        if let Ok((_, st1)) = block_text(bs, body@, indent + 1, st) {
            lemma_loop_tail_keeps_names(bs, stmt, indent, st1);
            if let Ok((_, st2)) = loop_tail_text(bs, stmt, indent, st1) {
                lemma_calls_grow_trans(st, st1, st2);
            }
        }
    }
}

proof fn lemma_loop_tail_keeps_names(bs: BodyScope, stmt: Statement, indent: nat, st: CallState)
    ensures
        loop_tail_text(bs, stmt, indent, st) matches Ok((_, st1)) ==> calls_grow(st, st1),
    decreases stmt, 1int,
{
    lemma_calls_grow_refl(st);
    if let Statement::Loop { continuing, .. } = stmt {
        lemma_block_keeps_names(bs, continuing@, indent + 1, st);
    }
}

/// Writing a block of statements only adds names of call results.
pub proof fn lemma_block_keeps_names(bs: BodyScope, stmts: Seq<Statement>, indent: nat, st: CallState)
    ensures
        block_text(bs, stmts, indent, st) matches Ok((_, st1)) ==> calls_grow(st, st1),
    decreases stmts, 4int,
{
    lemma_calls_grow_refl(st);
    if stmts.len() > 0 {
        lemma_statement_keeps_names(bs, stmts[0], indent, st);
        if let Ok((_, st1)) = stmt_text(bs, stmts[0], indent, st) {
            lemma_block_keeps_names(bs, stmts.drop_first(), indent, st1);
            if let Ok((_, st2)) = block_text(bs, stmts.drop_first(), indent, st1) {
                lemma_calls_grow_trans(st, st1, st2);
            }
        }
    }
}

/// A lookup that finds a name still finds it after entries are added.
proof fn lemma_find_call_grows(before: CallState, after: CallState, handle: usize)
    requires
        calls_grow(before, after),
        find_call(before.calls, handle) is Some,
    ensures
        find_call(after.calls, handle) == find_call(before.calls, handle),
    decreases before.calls.len(),
{
    let a = before.calls;
    let b = after.calls;
    assert(b[0] == b.subrange(0, a.len() as int)[0]);
    if a[0].0 != handle {
        let a1 = CallState { calls: a.drop_first(), counter: before.counter };
        let b1 = CallState { calls: b.drop_first(), counter: before.counter };
        assert(b1.calls.subrange(0, a1.calls.len() as int) =~= a1.calls);
        lemma_find_call_grows(a1, b1, handle);
    }
}

/// Once a call statement has declared the variable for its result, every
/// later use of that result in the same function writes the declared name:
/// the name survives the statements written after the call.
pub proof fn lemma_declared_name_is_used_later(
    bs: BodyScope,
    function: usize,
    arguments: Vec<usize>,
    result: usize,
    later: Seq<Statement>,
    indent: nat,
    later_indent: nat,
    st: CallState,
)
    requires
        result < bs.function.expressions@.len(),
        bs.function.expressions@[result as int] is CallResult,
        stmt_text(bs, Statement::Call { function, arguments, result: Some(result) }, indent, st) is Ok,
        block_text(
            bs,
            later,
            later_indent,
            stmt_text(bs, Statement::Call { function, arguments, result: Some(result) }, indent, st)->Ok_0.1,
        ) is Ok,
    ensures
        expr_text(
            body_exprs(bs),
            block_text(
                bs,
                later,
                later_indent,
                stmt_text(bs, Statement::Call { function, arguments, result: Some(result) }, indent, st)->Ok_0.1,
            )->Ok_0.1.calls,
            result as int,
        ) == Ok::<Seq<char>, Stop>(call_result_name(bs, st, result, function).0),
{
    let st1 = stmt_text(bs, Statement::Call { function, arguments, result: Some(result) }, indent, st)->Ok_0.1;
    assert(st1 == call_result_name(bs, st, result, function).1);
    lemma_named_call_result_is_found(bs, st, result, function);
    lemma_block_keeps_names(bs, later, later_indent, st1);
    let st2 = block_text(bs, later, later_indent, st1)->Ok_0.1;
    lemma_find_call_grows(st1, st2, result);
}

/// The two results name the same text: both succeed with the same text, or
/// both fail with the same refusal and written text.
pub open spec fn same_text(r1: Result<(Seq<char>, CallState), Stop>, r2: Result<(Seq<char>, CallState), Stop>) -> bool {
    match (r1, r2) {
        (Ok((t1, _)), Ok((t2, _))) => t1 == t2,
        (Err(e1), Err(e2)) => e1 == e2,
        _ => false,
    }
}

/// No expression of the arena is a call result.
pub open spec fn no_call_results(arena: Seq<Expression>) -> bool {
    forall|i: int| 0 <= i < arena.len() ==> !(#[trigger] arena[i] is CallResult)
}

/// An expression whose arena has no call results is written the same
/// whatever names call results have.
proof fn lemma_expression_ignores_calls(sc: ExprScope, c1: Seq<(usize, Seq<char>)>, c2: Seq<(usize, Seq<char>)>, h: int)
    requires
        no_call_results(sc.arena),
        0 <= h < sc.arena.len(),
    ensures
        expr_text(sc, c1, h) == expr_text(sc, c2, h),
    decreases h, 1int,
{
    assert(!(sc.arena[h] is CallResult));
    match sc.arena[h] {
        Expression::Binary { left, right, .. } => {
            if left < h && right < h {
                lemma_expression_ignores_calls(sc, c1, c2, left as int);
                lemma_expression_ignores_calls(sc, c1, c2, right as int);
            }
        },
        Expression::Unary { expr, .. } => {
            if expr < h {
                lemma_expression_ignores_calls(sc, c1, c2, expr as int);
            }
        },
        Expression::AccessIndex { base, .. } => {
            if base < h {
                lemma_expression_ignores_calls(sc, c1, c2, base as int);
            }
        },
        Expression::Access { base, index } => {
            if base < h && index < h {
                lemma_expression_ignores_calls(sc, c1, c2, base as int);
                lemma_expression_ignores_calls(sc, c1, c2, index as int);
            }
        },
        Expression::Load { pointer } => {
            if pointer < h {
                lemma_expression_ignores_calls(sc, c1, c2, pointer as int);
            }
        },
        Expression::Compose { components, .. } => {
            lemma_components_ignore_calls(sc, c1, c2, h, components@, false);
            if components.len() > 0 && components[0] < h {
                lemma_expression_ignores_calls(sc, c1, c2, components[0] as int);
            }
        },
        Expression::Splat { value, .. } => {
            if value < h {
                lemma_expression_ignores_calls(sc, c1, c2, value as int);
            }
        },
        Expression::Select { condition, accept, reject } => {
            if condition < h && accept < h && reject < h {
                lemma_expression_ignores_calls(sc, c1, c2, condition as int);
                lemma_expression_ignores_calls(sc, c1, c2, accept as int);
                lemma_expression_ignores_calls(sc, c1, c2, reject as int);
            }
        },
        Expression::Math { arg, .. } => {
            if arg < h {
                lemma_expression_ignores_calls(sc, c1, c2, arg as int);
            }
        },
        _ => {},
    }
}

proof fn lemma_components_ignore_calls(
    sc: ExprScope,
    c1: Seq<(usize, Seq<char>)>,
    c2: Seq<(usize, Seq<char>)>,
    parent: int,
    components: Seq<usize>,
    separate: bool,
)
    requires
        no_call_results(sc.arena),
        0 <= parent < sc.arena.len(),
    ensures
        components_text(sc, c1, parent, components, separate) == components_text(sc, c2, parent, components, separate),
    decreases parent, 0int, components.len(),
{
    if components.len() > 0 && components[0] < parent {
        lemma_expression_ignores_calls(sc, c1, c2, components[0] as int);
        lemma_components_ignore_calls(sc, c1, c2, parent, components.drop_first(), true);
    }
}

proof fn lemma_constants_ignore_calls(m: Module, info: ModuleInfo, c1: Seq<(usize, Seq<char>)>, c2: Seq<(usize, Seq<char>)>, i: nat)
    requires
        module_ok(m, info),
        no_call_results(m.global_expressions@),
    ensures
        constants_from(m, info, c1, i) == constants_from(m, info, c2, i),
    decreases m.constants@.len() - i,
{
    if i < m.constants@.len() {
        assert(m.constants.len() == m.constants@.len());
        assert(constant_ok(m, i as usize));
        lemma_expression_ignores_calls(module_scope(m, info), c1, c2, m.constants@[i as int].init as int);
        lemma_constants_ignore_calls(m, info, c1, c2, i + 1);
    }
}

proof fn lemma_globals_ignore_calls(m: Module, info: ModuleInfo, c1: Seq<(usize, Seq<char>)>, c2: Seq<(usize, Seq<char>)>, i: nat)
    requires
        module_ok(m, info),
        no_call_results(m.global_expressions@),
    ensures
        global_variables_from(m, info, c1, i) == global_variables_from(m, info, c2, i),
    decreases m.global_variables@.len() - i,
{
    if i < m.global_variables@.len() {
        assert(m.global_variables.len() == m.global_variables@.len());
        assert(global_variable_ok(m, i as usize));
        if let Some(init) = m.global_variables@[i as int].init {
            if declared_space(m.global_variables@[i as int].space) {
                lemma_expression_ignores_calls(module_scope(m, info), c1, c2, init as int);
            }
        }
        lemma_globals_ignore_calls(m, info, c1, c2, i + 1);
    }
}

proof fn lemma_functions_ignore_state(m: Module, info: ModuleInfo, i: nat, st1: CallState, st2: CallState)
    ensures
        same_text(functions_from(m, info, i, st1), functions_from(m, info, i, st2)),
    decreases m.functions@.len() - i,
{
    if i < m.functions@.len() {
        if let Ok((_, s)) = function_text(m, info, i as usize) {
            lemma_functions_ignore_state(m, info, i + 1, s, s);
        }
    }
}

proof fn lemma_entry_points_ignore_state(m: Module, info: ModuleInfo, i: nat, st1: CallState, st2: CallState)
    ensures
        same_text(entry_points_from(m, info, i, st1), entry_points_from(m, info, i, st2)),
    decreases m.entry_points@.len() - i,
{
    if i < m.entry_points@.len() {
        if let Ok((_, s)) = entry_point_text(m, info, i as usize) {
            lemma_entry_points_ignore_state(m, info, i + 1, s, s);
        }
    }
}

/// Writing a module again gives the same text again: call-result names and
/// counts restart in every function, so the text of a module whose
/// module-level expressions hold no call result does not depend on the
/// state the writer is in.
pub proof fn lemma_module_text_repeats(m: Module, info: ModuleInfo, st1: CallState, st2: CallState)
    requires
        module_ok(m, info),
        no_call_results(m.global_expressions@),
    ensures
        same_text(module_text(m, info, st1), module_text(m, info, st2)),
{
    lemma_constants_ignore_calls(m, info, st1.calls, st2.calls, 0);
    lemma_globals_ignore_calls(m, info, st1.calls, st2.calls, 0);
    assert(declarations_text(m, info, st1.calls) == declarations_text(m, info, st2.calls));
    lemma_functions_ignore_state(m, info, 0, st1, st2);
    match (functions_from(m, info, 0, st1), functions_from(m, info, 0, st2)) {
        (Ok((_, s1)), Ok((_, s2))) => {
            lemma_entry_points_ignore_state(m, info, 0, s1, s2);
        },
        _ => {},
    }
}

/// How the simple expression forms are written: a unary operator before
/// its operand, an index after its base in brackets, and a load as the
/// pointer expression itself; a refusal inside the operand stops the
/// expression after what was written before the operand.
pub proof fn lemma_simple_expression_forms(sc: ExprScope, calls: Seq<(usize, Seq<char>)>, h: int)
    requires
        0 <= h < sc.arena.len(),
    ensures
        sc.arena[h] matches Expression::Unary { op, expr } ==> expr < h ==> expr_text(sc, calls, h) == match expr_text(sc, calls, expr as int) {
            Ok(x) => Ok(unary_op_text(op) + x),
            Err(e) => Err(after(unary_op_text(op), e)),
        },
        sc.arena[h] matches Expression::AccessIndex { base, index } ==> base < h ==> expr_text(sc, calls, h) == match expr_text(sc, calls, base as int) {
            Ok(b) => Ok(b + "["@ + decimal(index as nat) + "]"@),
            Err(e) => Err(e),
        },
        sc.arena[h] matches Expression::Access { base, index } ==> base < h && index < h ==> expr_text(sc, calls, h) == match expr_text(sc, calls, base as int) {
            Ok(b) => match expr_text(sc, calls, index as int) {
                Ok(i) => Ok(b + "["@ + i + "]"@),
                Err(e) => Err(after(b + "["@, e)),
            },
            Err(e) => Err(e),
        },
        sc.arena[h] matches Expression::Load { pointer } ==> pointer < h ==> expr_text(sc, calls, h) == expr_text(sc, calls, pointer as int),
{
}

/// `part` occurs in `text`.
pub open spec fn occurs_in(part: Seq<char>, text: Seq<char>) -> bool {
    exists|p: int| 0 <= p && p + part.len() <= text.len() && #[trigger] text.subrange(p, p + part.len()) == part
}

/// The line that opens the definition of entry point `index`.
pub open spec fn entry_point_opening(m: Module, index: int) -> Seq<char> {
    "void "@ + m.names.text(NameKey::EntryPoint(entry_point_index(index as usize))) + "() {"@ + "\n"@
}

/// What occurs in `text` occurs in it with anything before or after it.
pub(crate) proof fn lemma_occurs_in_context(part: Seq<char>, before: Seq<char>, text: Seq<char>, after: Seq<char>)
    requires
        occurs_in(part, text),
    ensures
        occurs_in(part, before + text + after),
{
    let p = choose|p: int| 0 <= p && p + part.len() <= text.len() && #[trigger] text.subrange(p, p + part.len()) == part;
    let whole = before + text + after;
    let q = before.len() + p;
    assert(whole.subrange(q, q + part.len()) =~= text.subrange(p, p + part.len()));
}

/// Written entry points `i..` each open with their line.
proof fn lemma_entry_point_openings_occur(m: Module, info: ModuleInfo, i: nat, st: CallState)
    requires
        entry_points_from(m, info, i, st) is Ok,
    ensures
        forall|e: int| i <= e < m.entry_points@.len() ==> occurs_in(
            #[trigger] entry_point_opening(m, e),
            entry_points_from(m, info, i, st)->Ok_0.0,
        ),
    decreases m.entry_points@.len() - i,
{
    if i < m.entry_points@.len() {
        assert(m.entry_points.len() == m.entry_points@.len());
        let (t, st1) = entry_point_text(m, info, i as usize)->Ok_0;
        let rest = entry_points_from(m, info, i + 1, st1)->Ok_0.0;
        let whole = entry_points_from(m, info, i, st)->Ok_0.0;
        lemma_entry_point_openings_occur(m, info, i + 1, st1);
        assert(whole == t + rest);
        let opening = entry_point_opening(m, i as int);
        assert(t.subrange(0, opening.len() as int) =~= opening);
        assert(whole.subrange(0, opening.len() as int) =~= opening);
        assert forall|e: int| i <= e < m.entry_points@.len() implies occurs_in(
            #[trigger] entry_point_opening(m, e),
            whole,
        ) by {
            if e > i {
                lemma_occurs_in_context(entry_point_opening(m, e), t, rest, Seq::empty());
                assert(t + rest + Seq::<char>::empty() =~= whole);
            } else {
                assert(whole.subrange(0, 0 + opening.len() as int) == opening);
            }
        }
    }
}

/// Every entry point of a written module appears in its text as a `void`
/// function without parameters, under the entry point's name.
pub proof fn lemma_entry_points_appear(m: Module, info: ModuleInfo, st: CallState)
    requires
        module_text(m, info, st) is Ok,
    ensures
        forall|e: int| 0 <= e < m.entry_points@.len() ==> occurs_in(
            #[trigger] entry_point_opening(m, e),
            module_text(m, info, st)->Ok_0.0,
        ),
{
    let decls = declarations_text(m, info, st.calls)->Ok_0;
    let (ft, st1) = functions_from(m, info, 0, st)->Ok_0;
    let et = entry_points_from(m, info, 0, st1)->Ok_0.0;
    let text = module_text(m, info, st)->Ok_0.0;
    assert(text == header_text() + decls + ft + et);
    lemma_entry_point_openings_occur(m, info, 0, st1);
    assert forall|e: int| 0 <= e < m.entry_points@.len() implies occurs_in(
        #[trigger] entry_point_opening(m, e),
        text,
    ) by {
        lemma_occurs_in_context(entry_point_opening(m, e), header_text() + decls + ft, et, Seq::empty());
        assert(header_text() + decls + ft + et + Seq::<char>::empty() =~= text);
    }
}

} // verus!
