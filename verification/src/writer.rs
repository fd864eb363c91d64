//! The writer: walks a module and appends its C++ text to a `String`.
use vstd::prelude::*;
use crate::conv::{binary_op_text, binary_op_to_cpp, scalar_to_cpp_type, unary_op_to_cpp, vector_size_to_usize};
use crate::ir::{
    ArraySize, BinaryOperator, Constant, EntryPoint, Expression, Function, FunctionInfo, FunctionKind,
    GlobalVariable, Literal, MathFunction, Module, ModuleInfo, NameKey, NameTable, ShaderStage,
    Statement, Type, TypeInner, TypeResolution,
};
use crate::names::{argument_key, local_key};
use crate::render::{
    arguments_text, block_text, body_exprs, break_if_text, call_result_name, call_stmt_text,
    call_text, expr_text, find_call, vector_constructor_open, if_blocks_text, else_text, loop_tail_text, find_named, if_text, literal_text, loop_text, prepend,
    prepend_state, resolution_inner, stmt_text, type_text, BodyScope, CallState, ExprScope, Stop,
    body_text, constant_text, constants_from,
    entry_point_scope, entry_point_text, entry_points_from, fresh_calls, function_scope,
    function_text, functions_from, global_variable_text, global_variables_from, header_text,
    local_declarations_text, locals_from, members_text, module_scope, module_text, declarations_text,
    parameters_from, type_definition_text, type_definitions_from,
};
use crate::text::{decimal, indent_string, indent_text, push_decimal, push_signed_decimal};
use crate::valid::{
    arena_ok, argument_ok, block_ok, body_ok, constant_ok, entry_point_ok, expr_ok, function_ok,
    global_variable_ok, keys_distinct, local_ok, module_ok, stmt_ok, type_ok, types_ok,
};
use crate::{Error, Options};

verus! {

/// `r` reports what `expected` says: on success the output grew by the
/// expected text; on a refusal the expected error came back and the output
/// grew by exactly the text written before the refusal.
pub open spec fn written(
    r: Result<(), Error>,
    before: Seq<char>,
    after: Seq<char>,
    expected: Result<Seq<char>, Stop>,
) -> bool {
    match expected {
        Ok(text) => r is Ok && after == before + text,
        Err(e) => r matches Err(err) && err@ == e.refusal.failure() && after =~= before + e.written,
    }
}

/// The scope in which an arena is written: the types of its expressions
/// come from the function's validation info, or from the module's.
pub open spec fn scope_of(
    m: &Module,
    info: &ModuleInfo,
    kind: Option<FunctionKind>,
    arena: Seq<Expression>,
    func_info: Option<&FunctionInfo>,
) -> ExprScope {
    ExprScope {
        types: m.types@,
        names: m.names,
        kind,
        resolutions: resolutions_of(info, func_info),
        arena,
    }
}

/// Where the types of an arena's expressions come from.
pub open spec fn resolutions_of(info: &ModuleInfo, func_info: Option<&FunctionInfo>) -> Seq<TypeResolution> {
    match func_info {
        Some(fi) => fi.expressions@,
        None => info.const_expression_types@,
    }
}

/// `r` reports what `expected` says: on success the output grew by the
/// expected text and the call state is the expected one; on a refusal the
/// expected error came back and the output grew by exactly the text
/// written before the refusal.
pub open spec fn stepped(
    r: Result<(), Error>,
    before: Seq<char>,
    after: Seq<char>,
    after_state: CallState,
    expected: Result<(Seq<char>, CallState), Stop>,
) -> bool {
    match expected {
        Ok((text, st)) => r is Ok && after == before + text && after_state == st,
        Err(e) => r matches Err(err) && err@ == e.refusal.failure() && after =~= before + e.written,
    }
}

/// The scope of a function body.
pub open spec fn body_of(m: &Module, kind: FunctionKind, func: &Function, func_info: &FunctionInfo) -> BodyScope {
    BodyScope {
        types: m.types@,
        names: m.names,
        functions: m.functions@,
        kind,
        function: *func,
        resolutions: func_info.expressions@,
    }
}

pub open spec fn calls_view(entries: Seq<(usize, String)>) -> Seq<(usize, Seq<char>)> {
    entries.map_values(|entry: (usize, String)| (entry.0, entry.1@))
}

/// A handle that a lookup does not find is the key of no entry.
proof fn lemma_find_call_none(calls: Seq<(usize, Seq<char>)>, handle: usize)
    requires
        find_call(calls, handle) is None,
    ensures
        forall|i: int| 0 <= i < calls.len() ==> #[trigger] calls[i].0 != handle,
    decreases calls.len(),
{
    if calls.len() > 0 {
        lemma_find_call_none(calls.drop_first(), handle);
        assert forall|i: int| 0 <= i < calls.len() implies #[trigger] calls[i].0 != handle by {
            if i > 0 {
                assert(calls[i] == calls.drop_first()[i - 1]);
            }
        }
    }
}

/// Writes C++ text into a `String`.
pub struct Writer {
    out: String,
    /// The names given to call results in the current function.
    call_results: Vec<(usize, String)>,
    /// How many call results have been given a generated name.
    temp_counter: usize,
}

impl Writer {
    /// The text written so far.
    pub closed spec fn output(&self) -> Seq<char> {
        self.out@
    }

    /// The names given to call results so far.
    pub closed spec fn calls(&self) -> Seq<(usize, Seq<char>)> {
        calls_view(self.call_results@)
    }

    pub closed spec fn counter(&self) -> nat {
        self.temp_counter as nat
    }

    pub closed spec fn state(&self) -> CallState {
        CallState { calls: self.calls(), counter: self.counter() }
    }

    /// Every generated name took one entry of the call results, and no call
    /// result has two entries.
    pub closed spec fn inv(&self) -> bool {
        &&& self.temp_counter <= self.call_results@.len()
        &&& keys_distinct(self.call_results@)
    }

    /// A writer that appends to `out`.
    pub fn new(out: String, _options: &Options) -> (w: Writer)
        ensures
            w.inv(),
            w.output() == out@,
            w.calls() == Seq::<(usize, Seq<char>)>::empty(),
            w.counter() == 0,
            w.state() == fresh_calls(),
    {
        let w = Writer { out, call_results: Vec::new(), temp_counter: 0 };
        proof {
            reveal(keys_distinct);
            assert(keys_distinct(w.call_results@));
        }
        assert(w.calls() =~= Seq::<(usize, Seq<char>)>::empty());
        assert(w.state() =~= fresh_calls());
        w
    }

    /// The text written so far.
    pub fn finish(self) -> (out: String)
        ensures
            out@ == self.output(),
    {
        self.out
    }

    /// The identifier for `key`.
    fn name<'b>(names: &'b NameTable, key: NameKey) -> (res: &'b str)
        requires
            names.has(key),
        ensures
            res@ == names.text(key),
    {
        match names.get(key) {
            Some(name) => name,
            None => "",
        }
    }

    fn local_name_key(kind: FunctionKind, local: usize) -> (key: NameKey)
        ensures
            key == local_key(kind, local),
    {
        match kind {
            FunctionKind::Function(handle) => NameKey::FunctionLocal(handle, local),
            FunctionKind::EntryPoint(index) => NameKey::EntryPointLocal(index, local),
        }
    }

    fn argument_name(names: &NameTable, kind: FunctionKind, index: usize) -> (res: String)
        requires
            names.has(argument_key(kind, index as u32)),
        ensures
            res@ == names.text(argument_key(kind, index as u32)),
    {
        let key = match kind {
            FunctionKind::Function(handle) => NameKey::FunctionArgument(handle, index as u32),
            FunctionKind::EntryPoint(ep_index) => NameKey::EntryPointArgument(ep_index, index as u32),
        };
        String::from_str(Self::name(names, key))
    }

    fn write_literal(&mut self, literal: &Literal) -> (r: Result<(), Error>)
        ensures
            final(self).call_results == old(self).call_results,
            final(self).temp_counter == old(self).temp_counter,
            written(r, old(self).out@, final(self).out@, literal_text(*literal)),
    {
        let ghost start = self.out@;
        match literal {
            Literal::F64 { text } => {
                self.out.append(text.as_str());
            },
            Literal::F32 { text } => {
                self.out.append(text.as_str());
                self.out.append("f");
            },
            Literal::U32(value) => {
                push_decimal(&mut self.out, *value as u64);
                self.out.append("u");
            },
            Literal::I32(value) => {
                push_signed_decimal(&mut self.out, *value as i64);
            },
            Literal::I64(value) => {
                push_signed_decimal(&mut self.out, *value);
                self.out.append("L");
            },
            Literal::U64(value) => {
                push_decimal(&mut self.out, *value);
                self.out.append("UL");
            },
            Literal::Bool(value) => {
                self.out.append(if *value { "true" } else { "false" });
            },
            Literal::F16 => {
                return Err(Error::Unsupported(String::from_str("f16 literals")));
            },
            Literal::AbstractInt(_) | Literal::AbstractFloat => {
                self.out.append("/* abstract */");
            },
        }
        proof {
            assert(self.out@ =~= start + literal_text(*literal)->Ok_0);
        }
        Ok(())
    }

    /// The type of expression `handle`, from the function's validation info
    /// or, outside functions, from the module's.
    fn resolve_expression_type<'b>(
        types: &'b Vec<Type>,
        info: &'b ModuleInfo,
        handle: usize,
        func_info: Option<&'b FunctionInfo>,
    ) -> (res: &'b TypeInner)
        requires
            handle < resolutions_of(info, func_info).len(),
            crate::valid::resolution_ok(types@, resolutions_of(info, func_info)[handle as int]),
        ensures
            *res == resolution_inner(types@, resolutions_of(info, func_info)[handle as int]),
    {
        let resolution = match func_info {
            Some(fi) => &fi.expressions[handle],
            None => &info.const_expression_types[handle],
        };
        match resolution {
            TypeResolution::Handle(t) => &types[*t].inner,
            TypeResolution::Value(inner) => inner,
        }
    }

    /// The name given to call result `handle`, if it has one.
    fn call_result(&self, handle: usize) -> (res: Option<String>)
        ensures
            match res {
                Some(name) => find_call(self.calls(), handle) == Some(name@),
                None => find_call(self.calls(), handle) is None,
            },
    {
        let mut i: usize = 0;
        proof {
            assert(calls_view(self.call_results@).skip(0) =~= calls_view(self.call_results@));
        }
        while i < self.call_results.len()
            invariant
                i <= self.call_results@.len(),
                find_call(self.calls(), handle) == find_call(calls_view(self.call_results@).skip(i as int), handle),
            decreases self.call_results@.len() - i,
        {
            proof {
                assert(calls_view(self.call_results@).skip(i as int).drop_first()
                    =~= calls_view(self.call_results@).skip(i + 1));
            }
            if self.call_results[i].0 == handle {
                return Some(self.call_results[i].1.clone());
            }
            i = i + 1;
        }
        None
    }

    fn write_expression_arena(
        &mut self,
        m: &Module,
        info: &ModuleInfo,
        kind: Option<FunctionKind>,
        handle: usize,
        arena: &Vec<Expression>,
        func_info: Option<&FunctionInfo>,
    ) -> (r: Result<(), Error>)
        requires
            handle < arena.len(),
            arena_ok(scope_of(m, info, kind, arena@, func_info)),
        ensures
            final(self).call_results == old(self).call_results,
            final(self).temp_counter == old(self).temp_counter,
            written(
                r,
                old(self).out@,
                final(self).out@,
                expr_text(scope_of(m, info, kind, arena@, func_info), old(self).calls(), handle as int),
            ),
        decreases handle, 2int,
    {
        let expr = &arena[handle];
        self.write_expression(m, info, kind, expr, handle, arena, func_info)
    }

    #[verifier::rlimit(50)]
    fn write_expression(
        &mut self,
        m: &Module,
        info: &ModuleInfo,
        kind: Option<FunctionKind>,
        expr: &Expression,
        handle: usize,
        arena: &Vec<Expression>,
        func_info: Option<&FunctionInfo>,
    ) -> (r: Result<(), Error>)
        requires
            handle < arena.len(),
            *expr == arena@[handle as int],
            arena_ok(scope_of(m, info, kind, arena@, func_info)),
        ensures
            final(self).call_results == old(self).call_results,
            final(self).temp_counter == old(self).temp_counter,
            written(
                r,
                old(self).out@,
                final(self).out@,
                expr_text(scope_of(m, info, kind, arena@, func_info), old(self).calls(), handle as int),
            ),
        decreases handle, 1int,
    {
        let ghost sc = scope_of(m, info, kind, arena@, func_info);
        let ghost calls = self.calls();
        let ghost start = self.out@;
        proof {
            assert(expr_ok(sc, handle as int));
        }
        match expr {
            Expression::Literal(literal) => {
                return self.write_literal(literal);
            },
            Expression::Constant(constant) => {
                let name = Self::name(&m.names, NameKey::Constant(*constant));
                self.out.append(name);
            },
            Expression::GlobalVariable(global) => {
                let name = Self::name(&m.names, NameKey::GlobalVariable(*global));
                self.out.append(name);
            },
            Expression::LocalVariable(local) => {
                let k = match kind {
                    Some(k) => k,
                    None => FunctionKind::Function(0),
                };
                let name = Self::name(&m.names, Self::local_name_key(k, *local));
                self.out.append(name);
            },
            Expression::FunctionArgument(index) => {
                let k = match kind {
                    Some(k) => k,
                    None => FunctionKind::Function(0),
                };
                let arg_name = Self::argument_name(&m.names, k, *index as usize);
                self.out.append(arg_name.as_str());
            },
            Expression::Binary { op, left, right } => {
                return self.write_binary(m, info, kind, handle, *op, *left, *right, arena, func_info);
            },
            Expression::Unary { op, expr } => {
                self.out.append(unary_op_to_cpp(*op));
                let r = self.write_expression_arena(m, info, kind, *expr, arena, func_info);
                if r.is_err() {
                    return r;
                }
            },
            Expression::AccessIndex { base, index } => {
                let r = self.write_expression_arena(m, info, kind, *base, arena, func_info);
                if r.is_err() {
                    return r;
                }
                self.out.append("[");
                push_decimal(&mut self.out, *index as u64);
                self.out.append("]");
            },
            Expression::Access { base, index } => {
                let r = self.write_expression_arena(m, info, kind, *base, arena, func_info);
                if r.is_err() {
                    return r;
                }
                let ghost b = self.out@;
                self.out.append("[");
                let ghost c = self.out@;
                let r = self.write_expression_arena(m, info, kind, *index, arena, func_info);
                if r.is_err() {
                    return r;
                }
                let ghost d = self.out@;
                self.out.append("]");
                proof {
                    let it = d.subrange(c.len() as int, d.len() as int);
                    assert(d =~= c + it);
                }
            },
            Expression::Load { pointer } => {
                return self.write_expression_arena(m, info, kind, *pointer, arena, func_info);
            },
            Expression::Compose { ty, components } => {
                return self.write_compose(m, info, kind, handle, *ty, components, arena, func_info);
            },
            Expression::Splat { size, value } => {
                let resolved = Self::resolve_expression_type(&m.types, info, handle, func_info);
                if let TypeInner::Vector { scalar, .. } = resolved {
                    self.out.append("vec");
                    push_decimal(&mut self.out, vector_size_to_usize(*size) as u64);
                    self.out.append("<");
                    self.out.append(scalar_to_cpp_type(*scalar));
                    self.out.append(">(");
                    let ghost c = self.out@;
                    let r = self.write_expression_arena(m, info, kind, *value, arena, func_info);
                    if r.is_err() {
                        return r;
                    }
                    let ghost d = self.out@;
                    self.out.append(")");
                    proof {
                        let v = d.subrange(c.len() as int, d.len() as int);
                        assert(d =~= c + v);
                    }
                } else {
                    return Err(Error::Unsupported(String::from_str("splat for non-vector type")));
                }
            },
            Expression::Select { condition, accept, reject } => {
                return self.write_select(m, info, kind, handle, *condition, *accept, *reject, arena, func_info);
            },
            Expression::Math { fun, arg } => {
                match fun {
                    MathFunction::Abs => {
                        let ty = Self::resolve_expression_type(&m.types, info, handle, func_info);
                        match ty {
                            TypeInner::Scalar(_) => {
                                self.out.append("std::abs(");
                            },
                            TypeInner::Vector { .. } => {
                                self.out.append("abs(");
                            },
                            _ => {
                                return Err(Error::Unsupported(String::from_str("abs for this type")));
                            },
                        }
                        let ghost c = self.out@;
                        let r = self.write_expression_arena(m, info, kind, *arg, arena, func_info);
                        if r.is_err() {
                            return r;
                        }
                        let ghost d = self.out@;
                        self.out.append(")");
                        proof {
                            assert(d =~= c + d.subrange(c.len() as int, d.len() as int));
                        }
                    },
                    MathFunction::Other { name } => {
                        let mut message = String::from_str("math function ");
                        message.append(name.as_str());
                        message.append(" not supported");
                        return Err(Error::Unsupported(message));
                    },
                }
            },
            Expression::CallResult(_) => {
                match self.call_result(handle) {
                    Some(name) => {
                        self.out.append(name.as_str());
                    },
                    None => {
                        return Err(Error::Unsupported(
                            String::from_str("call result used before call statement"),
                        ));
                    },
                }
            },
            Expression::Other => {
                self.out.append("/* expr */");
            },
        }
        proof {
            assert(self.out@ =~= start + expr_text(sc, calls, handle as int)->Ok_0);
        }
        Ok(())
    }

    /// A binary expression: both operands in parentheses around the
    /// operator.
    fn write_binary(
        &mut self,
        m: &Module,
        info: &ModuleInfo,
        kind: Option<FunctionKind>,
        handle: usize,
        op: BinaryOperator,
        left: usize,
        right: usize,
        arena: &Vec<Expression>,
        func_info: Option<&FunctionInfo>,
    ) -> (r: Result<(), Error>)
        requires
            handle < arena.len(),
            arena@[handle as int] == (Expression::Binary { op, left, right }),
            arena_ok(scope_of(m, info, kind, arena@, func_info)),
        ensures
            final(self).call_results == old(self).call_results,
            final(self).temp_counter == old(self).temp_counter,
            written(
                r,
                old(self).out@,
                final(self).out@,
                expr_text(scope_of(m, info, kind, arena@, func_info), old(self).calls(), handle as int),
            ),
        decreases handle, 0int,
    {
        let ghost sc = scope_of(m, info, kind, arena@, func_info);
        let ghost calls = self.calls();
        let ghost start = self.out@;
        proof {
            assert(expr_ok(sc, handle as int));
        }
        self.out.append("(");
        let ghost a = self.out@;
        let r = self.write_expression_arena(m, info, kind, left, arena, func_info);
        if r.is_err() {
            return r;
        }
        let ghost b = self.out@;
        let ghost l = b.subrange(a.len() as int, b.len() as int);
        proof {
            assert(b =~= a + l);
        }
        self.out.append(" ");
        self.out.append(binary_op_to_cpp(op));
        self.out.append(" ");
        let ghost c = self.out@;
        let r = self.write_expression_arena(m, info, kind, right, arena, func_info);
        if r.is_err() {
            proof {
                let ew = expr_text(sc, calls, right as int)->Err_0.written;
                assert(self.out@ =~= start + (("("@ + l + " "@ + binary_op_text(op) + " "@) + ew));
            }
            return r;
        }
        let ghost d = self.out@;
        self.out.append(")");
        proof {
            let rt = d.subrange(c.len() as int, d.len() as int);
            assert(d =~= c + rt);
            assert(self.out@ =~= start + expr_text(sc, calls, handle as int)->Ok_0);
        }
        Ok(())
    }

    /// `select(reject, accept, condition)`.
    fn write_select(
        &mut self,
        m: &Module,
        info: &ModuleInfo,
        kind: Option<FunctionKind>,
        handle: usize,
        condition: usize,
        accept: usize,
        reject: usize,
        arena: &Vec<Expression>,
        func_info: Option<&FunctionInfo>,
    ) -> (r: Result<(), Error>)
        requires
            handle < arena.len(),
            arena@[handle as int] == (Expression::Select { condition, accept, reject }),
            arena_ok(scope_of(m, info, kind, arena@, func_info)),
        ensures
            final(self).call_results == old(self).call_results,
            final(self).temp_counter == old(self).temp_counter,
            written(
                r,
                old(self).out@,
                final(self).out@,
                expr_text(scope_of(m, info, kind, arena@, func_info), old(self).calls(), handle as int),
            ),
        decreases handle, 0int,
    {
        let ghost sc = scope_of(m, info, kind, arena@, func_info);
        let ghost calls = self.calls();
        let ghost start = self.out@;
        proof {
            assert(expr_ok(sc, handle as int));
        }
        self.out.append("select(");
        let ghost a = self.out@;
        let r = self.write_expression_arena(m, info, kind, reject, arena, func_info);
        if r.is_err() {
            return r;
        }
        let ghost b = self.out@;
        let ghost rt = b.subrange(a.len() as int, b.len() as int);
        proof {
            assert(b =~= a + rt);
        }
        self.out.append(", ");
        let ghost c = self.out@;
        let r = self.write_expression_arena(m, info, kind, accept, arena, func_info);
        if r.is_err() {
            proof {
                let ew = expr_text(sc, calls, accept as int)->Err_0.written;
                assert(self.out@ =~= start + (("select("@ + rt + ", "@) + ew));
            }
            return r;
        }
        let ghost d = self.out@;
        let ghost at = d.subrange(c.len() as int, d.len() as int);
        proof {
            assert(d =~= c + at);
        }
        self.out.append(", ");
        let ghost e = self.out@;
        let r = self.write_expression_arena(m, info, kind, condition, arena, func_info);
        if r.is_err() {
            proof {
                let ew = expr_text(sc, calls, condition as int)->Err_0.written;
                assert(self.out@ =~= start + (("select("@ + rt + ", "@ + at + ", "@) + ew));
            }
            return r;
        }
        let ghost f = self.out@;
        self.out.append(")");
        proof {
            assert(f =~= e + f.subrange(e.len() as int, f.len() as int));
            assert(self.out@ =~= start + expr_text(sc, calls, handle as int)->Ok_0);
        }
        Ok(())
    }

    fn write_compose(
        &mut self,
        m: &Module,
        info: &ModuleInfo,
        kind: Option<FunctionKind>,
        handle: usize,
        ty: usize,
        components: &Vec<usize>,
        arena: &Vec<Expression>,
        func_info: Option<&FunctionInfo>,
    ) -> (r: Result<(), Error>)
        requires
            handle < arena.len(),
            arena@[handle as int] == (Expression::Compose { ty, components: *components }),
            arena_ok(scope_of(m, info, kind, arena@, func_info)),
        ensures
            final(self).call_results == old(self).call_results,
            final(self).temp_counter == old(self).temp_counter,
            written(
                r,
                old(self).out@,
                final(self).out@,
                expr_text(scope_of(m, info, kind, arena@, func_info), old(self).calls(), handle as int),
            ),
        decreases handle, 0int,
    {
        let ghost sc = scope_of(m, info, kind, arena@, func_info);
        let ghost calls = self.calls();
        let ghost start = self.out@;
        proof {
            assert(expr_ok(sc, handle as int));
        }
        match &m.types[ty].inner {
            TypeInner::Vector { size, scalar } => {
                self.out.append("vec");
                push_decimal(&mut self.out, vector_size_to_usize(*size) as u64);
                self.out.append("<");
                self.out.append(scalar_to_cpp_type(*scalar));
                self.out.append(">(");
                let ghost mid = self.out@;
                let ghost mut done: Seq<char> = Seq::empty();
                let mut i: usize = 0;
                proof {
                    assert(components@.skip(0) =~= components@);
                    assert(mid =~= mid + done);
                }
                while i < components.len()
                    invariant
                        i <= components@.len(),
                        handle < arena.len(),
                        arena@[handle as int] == (Expression::Compose { ty, components: *components }),
                        arena_ok(sc),
                        sc == scope_of(m, info, kind, arena@, func_info),
                        ty < m.types@.len(),
                        m.types@[ty as int].inner == (TypeInner::Vector { size: *size, scalar: *scalar }),
                        calls == self.calls(),
                        self.call_results == old(self).call_results,
                        self.temp_counter == old(self).temp_counter,
                        self.out@ == mid + done,
                        mid == old(self).out@ + vector_constructor_open(*size, *scalar),
                        crate::render::components_text(sc, calls, handle as int, components@, false)
                            == crate::render::prepend(
                                done,
                                crate::render::components_text(sc, calls, handle as int, components@.skip(i as int), i > 0),
                            ),
                    decreases components@.len() - i,
                {
                    proof {
                        assert(components@.skip(i as int).drop_first() =~= components@.skip(i + 1));
                        assert(components@.skip(i as int)[0] == components@[i as int]);
                        assert(expr_ok(sc, handle as int));
                        assert(components@[i as int] < handle);
                    }
                    let ghost before = self.out@;
                    if i > 0 {
                        self.out.append(", ");
                    }
                    let ghost c = self.out@;
                    let r = self.write_expression_arena(m, info, kind, components[i], arena, func_info);
                    let ghost rest = crate::render::components_text(sc, calls, handle as int, components@.skip(i as int), i > 0);
                    let ghost tail = crate::render::components_text(sc, calls, handle as int, components@.skip(i + 1), true);
                    let ghost sep: Seq<char> = if i > 0 { ", "@ } else { Seq::empty() };
                    proof {
                        match expr_text(sc, calls, components@[i as int] as int) {
                            Err(e) => {
                                assert(rest == Err::<Seq<char>, Stop>(crate::render::after(sep, e)));
                            },
                            Ok(x) => {
                                assert(rest == crate::render::prepend(sep + x, tail));
                            },
                        }
                    }
                    if r.is_err() {
                        proof {
                            let e = expr_text(sc, calls, components@[i as int] as int)->Err_0;
                            assert(self.out@ =~= old(self).out@ + (vector_constructor_open(*size, *scalar) + (done + (sep + e.written))));
                        }
                        return r;
                    }
                    let ghost d = self.out@;
                    proof {
                        let x = d.subrange(c.len() as int, d.len() as int);
                        assert(x =~= expr_text(sc, calls, components@[i as int] as int)->Ok_0);
                        assert(rest == crate::render::prepend(sep + x, tail));
                        match tail {
                            Ok(t) => {
                                assert(done + (sep + x) + t =~= done + ((sep + x) + t));
                            },
                            Err(e) => {
                                assert(done + (sep + x) + e.written =~= done + ((sep + x) + e.written));
                            },
                        }
                        assert(d =~= c + x);
                        assert(c =~= before + sep);
                        done = done + (sep + x);
                        assert(self.out@ =~= mid + done);
                    }
                    i = i + 1;
                }
                self.out.append(")");
                proof {
                    assert(components@.skip(i as int) =~= Seq::<usize>::empty());
                }
            },
            TypeInner::Scalar(_) => {
                if components.len() > 0 {
                    return self.write_expression_arena(m, info, kind, components[0], arena, func_info);
                } else {
                    self.out.append("0");
                }
            },
            _ => {
                return Err(Error::Unsupported(
                    String::from_str("composite constructors for this type"),
                ));
            },
        }
        proof {
            assert(self.out@ =~= start + expr_text(sc, calls, handle as int)->Ok_0);
        }
        Ok(())
    }

    /// The name that the source gave to expression `handle`, if any.
    fn named_expression(func: &Function, handle: usize) -> (res: Option<String>)
        ensures
            match res {
                Some(name) => find_named(func.named_expressions@, handle) == Some(name@),
                None => find_named(func.named_expressions@, handle) is None,
            },
    {
        let mut i: usize = 0;
        proof {
            assert(func.named_expressions@.skip(0) =~= func.named_expressions@);
        }
        while i < func.named_expressions.len()
            invariant
                i <= func.named_expressions@.len(),
                find_named(func.named_expressions@, handle)
                    == find_named(func.named_expressions@.skip(i as int), handle),
            decreases func.named_expressions@.len() - i,
        {
            proof {
                assert(func.named_expressions@.skip(i as int).drop_first()
                    =~= func.named_expressions@.skip(i + 1));
            }
            if func.named_expressions[i].0 == handle {
                return Some(func.named_expressions[i].1.clone());
            }
            i = i + 1;
        }
        None
    }

    /// Gives call result `result` a name, if it has none yet, and returns it.
    fn ensure_call_result_name(
        &mut self,
        m: &Module,
        kind: FunctionKind,
        func: &Function,
        func_info: &FunctionInfo,
        result: usize,
        callee_handle: usize,
    ) -> (name: String)
        requires
            old(self).inv(),
            m.names.has(NameKey::Function(callee_handle)),
        ensures
            final(self).inv(),
            final(self).out == old(self).out,
            (name@, final(self).state()) == call_result_name(
                body_of(m, kind, func, func_info),
                old(self).state(),
                result,
                callee_handle,
            ),
    {
        let ghost st = self.state();
        if let Some(existing) = self.call_result(result) {
            return existing;
        }
        let ghost before = self.call_results@;
        proof {
            lemma_find_call_none(self.calls(), result);
            assert forall|i: int| 0 <= i < before.len() implies before[i].0 != result by {
                assert(self.calls()[i].0 == before[i].0);
            }
            reveal(keys_distinct);
        }
        if let Some(owned) = Self::named_expression(func, result) {
            self.call_results.push((result, owned.clone()));
            proof {
                reveal(keys_distinct);
                assert(self.call_results@ == before.push((result, owned)));
                assert(keys_distinct(self.call_results@));
                assert(self.calls() =~= st.calls.push((result, owned@)));
                assert(self.state() =~= CallState { calls: st.calls.push((result, owned@)), counter: st.counter });
            }
            return owned;
        }
        let base = Self::name(&m.names, NameKey::Function(callee_handle));
        let mut generated = String::from_str(base);
        generated.append("_");
        push_decimal(&mut generated, self.temp_counter as u64);
        self.call_results.push((result, generated.clone()));
        proof {
            reveal(keys_distinct);
            assert(self.call_results@ == before.push((result, generated)));
            assert(keys_distinct(self.call_results@));
            // The counter stays below the number of entries, which fits in a usize.
            assert(self.call_results.len() == self.call_results@.len());
        }
        self.temp_counter = self.temp_counter + 1;
        proof {
            assert(self.calls() =~= st.calls.push((result, generated@)));
            assert(self.state() =~= CallState { calls: st.calls.push((result, generated@)), counter: st.counter + 1 });
        }
        generated
    }

    fn write_function_call(
        &mut self,
        m: &Module,
        info: &ModuleInfo,
        kind: FunctionKind,
        func: &Function,
        func_info: &FunctionInfo,
        function: usize,
        arguments: &Vec<usize>,
    ) -> (r: Result<(), Error>)
        requires
            m.names.has(NameKey::Function(function)),
            forall|i: int| 0 <= i < arguments@.len() ==> #[trigger] arguments@[i] < func.expressions@.len(),
            arena_ok(body_exprs(body_of(m, kind, func, func_info))),
        ensures
            final(self).call_results == old(self).call_results,
            final(self).temp_counter == old(self).temp_counter,
            written(
                r,
                old(self).out@,
                final(self).out@,
                call_text(body_of(m, kind, func, func_info), old(self).calls(), function, arguments@),
            ),
    {
        let ghost bs = body_of(m, kind, func, func_info);
        let ghost calls = self.calls();
        let ghost start = self.out@;
        let func_name = Self::name(&m.names, NameKey::Function(function));
        self.out.append(func_name);
        self.out.append("(");
        let ghost mid = self.out@;
        let ghost mut done: Seq<char> = Seq::empty();
        let mut i: usize = 0;
        proof {
            assert(arguments@.skip(0) =~= arguments@);
            assert(mid =~= mid + done);
            assert(scope_of(m, info, Some(kind), func.expressions@, Some(func_info)) == body_exprs(bs));
        }
        while i < arguments.len()
            invariant
                i <= arguments@.len(),
                forall|j: int| 0 <= j < arguments@.len() ==> #[trigger] arguments@[j] < func.expressions@.len(),
                arena_ok(body_exprs(bs)),
                bs == body_of(m, kind, func, func_info),
                scope_of(m, info, Some(kind), func.expressions@, Some(func_info)) == body_exprs(bs),
                calls == self.calls(),
                self.call_results == old(self).call_results,
                self.temp_counter == old(self).temp_counter,
                self.out@ == mid + done,
                mid == old(self).out@ + (m.names.text(NameKey::Function(function)) + "("@),
                arguments_text(bs, calls, arguments@, false)
                    == prepend(done, arguments_text(bs, calls, arguments@.skip(i as int), i > 0)),
            decreases arguments@.len() - i,
        {
            proof {
                assert(arguments@.skip(i as int).drop_first() =~= arguments@.skip(i + 1));
                assert(arguments@.skip(i as int)[0] == arguments@[i as int]);
            }
            let ghost before = self.out@;
            if i > 0 {
                self.out.append(", ");
            }
            let ghost c = self.out@;
            let ghost sep: Seq<char> = if i > 0 { ", "@ } else { Seq::empty() };
            let ghost rest = arguments_text(bs, calls, arguments@.skip(i as int), i > 0);
            let ghost tail = arguments_text(bs, calls, arguments@.skip(i + 1), true);
            let r = self.write_expression_arena(m, info, Some(kind), arguments[i], &func.expressions, Some(func_info));
            proof {
                match expr_text(body_exprs(bs), calls, arguments@[i as int] as int) {
                    Err(e) => {
                        assert(rest == Err::<Seq<char>, Stop>(crate::render::after(sep, e)));
                    },
                    Ok(x) => {
                        assert(rest == prepend(sep + x, tail));
                    },
                }
            }
            if r.is_err() {
                proof {
                    let e = expr_text(body_exprs(bs), calls, arguments@[i as int] as int)->Err_0;
                    assert(self.out@ =~= old(self).out@ + ((m.names.text(NameKey::Function(function)) + "("@) + (done + (sep + e.written))));
                }
                return r;
            }
            let ghost d = self.out@;
            proof {
                let x = d.subrange(c.len() as int, d.len() as int);
                assert(x =~= expr_text(body_exprs(bs), calls, arguments@[i as int] as int)->Ok_0);
                assert(rest == prepend(sep + x, tail));
                match tail {
                    Ok(t) => {
                        assert(done + (sep + x) + t =~= done + ((sep + x) + t));
                    },
                    Err(e) => {
                        assert(done + (sep + x) + e.written =~= done + ((sep + x) + e.written));
                    },
                }
                assert(d =~= c + x);
                assert(c =~= before + sep);
                done = done + (sep + x);
                assert(self.out@ =~= mid + done);
            }
            i = i + 1;
        }
        self.out.append(")");
        proof {
            assert(arguments@.skip(i as int) =~= Seq::<usize>::empty());
            assert(self.out@ =~= start + call_text(bs, calls, function, arguments@)->Ok_0);
        }
        Ok(())
    }

    fn write_expr_handle(
        &mut self,
        m: &Module,
        info: &ModuleInfo,
        kind: FunctionKind,
        func: &Function,
        func_info: &FunctionInfo,
        handle: usize,
    ) -> (r: Result<(), Error>)
        requires
            handle < func.expressions@.len(),
            arena_ok(body_exprs(body_of(m, kind, func, func_info))),
        ensures
            final(self).call_results == old(self).call_results,
            final(self).temp_counter == old(self).temp_counter,
            written(
                r,
                old(self).out@,
                final(self).out@,
                expr_text(body_exprs(body_of(m, kind, func, func_info)), old(self).calls(), handle as int),
            ),
    {
        proof {
            assert(scope_of(m, info, Some(kind), func.expressions@, Some(func_info))
                == body_exprs(body_of(m, kind, func, func_info)));
        }
        self.write_expression_arena(m, info, Some(kind), handle, &func.expressions, Some(func_info))
    }

    fn write_block(
        &mut self,
        m: &Module,
        info: &ModuleInfo,
        kind: FunctionKind,
        func: &Function,
        func_info: &FunctionInfo,
        block: &Vec<Statement>,
        indent: usize,
    ) -> (r: Result<(), Error>)
        requires
            old(self).inv(),
            types_ok(m.types@),
            arena_ok(body_exprs(body_of(m, kind, func, func_info))),
            block_ok(body_of(m, kind, func, func_info), block@, indent as nat),
        ensures
            final(self).inv(),
            stepped(
                r,
                old(self).out@,
                final(self).out@,
                final(self).state(),
                block_text(body_of(m, kind, func, func_info), block@, indent as nat, old(self).state()),
            ),
        decreases block@, 4int,
    {
        let ghost bs = body_of(m, kind, func, func_info);
        let ghost st0 = self.state();
        let ghost start = self.out@;
        let ghost mut done: Seq<char> = Seq::empty();
        let mut i: usize = 0;
        proof {
            assert(block@.skip(0) =~= block@);
            assert(start =~= start + done);
        }
        while i < block.len()
            invariant
                i <= block@.len(),
                self.inv(),
                types_ok(m.types@),
                arena_ok(body_exprs(bs)),
                bs == body_of(m, kind, func, func_info),
                st0 == old(self).state(),
                start == old(self).out@,
                block_ok(bs, block@.skip(i as int), indent as nat),
                self.out@ == start + done,
                block_text(bs, block@, indent as nat, st0)
                    == prepend_state(done, block_text(bs, block@.skip(i as int), indent as nat, self.state())),
            decreases block@.len() - i,
        {
            proof {
                assert(block@.skip(i as int).drop_first() =~= block@.skip(i + 1));
                assert(block@.skip(i as int)[0] == block@[i as int]);
            }
            let ghost before = self.out@;
            let ghost st = self.state();
            let ghost here = block_text(bs, block@.skip(i as int), indent as nat, st);
            let r = self.write_statement(m, info, kind, func, func_info, &block[i], indent);
            proof {
                match stmt_text(bs, block@[i as int], indent as nat, st) {
                    Err(e) => {
                        assert(here == Err::<(Seq<char>, CallState), Stop>(e));
                    },
                    Ok((t, st1)) => {
                        assert(here == prepend_state(t, block_text(bs, block@.skip(i + 1), indent as nat, st1)));
                    },
                }
            }
            if r.is_err() {
                proof {
                    let e = stmt_text(bs, block@[i as int], indent as nat, st)->Err_0;
                    assert(here == Err::<(Seq<char>, CallState), Stop>(e));
                    assert(self.out@ =~= start + (done + e.written));
                }
                return r;
            }
            proof {
                let t = self.out@.subrange(before.len() as int, self.out@.len() as int);
                let rest = block_text(bs, block@.skip(i + 1), indent as nat, self.state());
                assert(t =~= stmt_text(bs, block@[i as int], indent as nat, st)->Ok_0.0);
                assert(self.out@ =~= before + t);
                match rest {
                    Ok((rt, _)) => {
                        assert(done + t + rt =~= done + (t + rt));
                    },
                    Err(e) => {
                        assert(done + t + e.written =~= done + (t + e.written));
                    },
                }
                done = done + t;
            }
            i = i + 1;
        }
        proof {
            assert(block@.skip(i as int) =~= Seq::<Statement>::empty());
        }
        Ok(())
    }

    #[verifier::rlimit(50)]
    fn write_statement(
        &mut self,
        m: &Module,
        info: &ModuleInfo,
        kind: FunctionKind,
        func: &Function,
        func_info: &FunctionInfo,
        statement: &Statement,
        indent: usize,
    ) -> (r: Result<(), Error>)
        requires
            old(self).inv(),
            types_ok(m.types@),
            arena_ok(body_exprs(body_of(m, kind, func, func_info))),
            stmt_ok(body_of(m, kind, func, func_info), *statement, indent as nat),
        ensures
            final(self).inv(),
            stepped(
                r,
                old(self).out@,
                final(self).out@,
                final(self).state(),
                stmt_text(body_of(m, kind, func, func_info), *statement, indent as nat, old(self).state()),
            ),
        decreases statement, 3int,
    {
        let ghost bs = body_of(m, kind, func, func_info);
        let ghost st = self.state();
        let ghost start = self.out@;
        let ghost expected = stmt_text(bs, *statement, indent as nat, st);
        let indent_str = indent_string(indent);
        let inner_indent = indent_string(indent + 1);
        match statement {
            Statement::Emit => {},
            Statement::Block(block) => {
                self.out.append(indent_str.as_str());
                self.out.append("{");
                self.out.append("\n");
                let ghost a = self.out@;
                let r = self.write_block(m, info, kind, func, func_info, block, indent + 1);
                if r.is_err() {
                    return r;
                }
                let ghost b = self.out@;
                self.out.append(indent_str.as_str());
                self.out.append("}");
                self.out.append("\n");
                proof {
                    assert(b =~= a + b.subrange(a.len() as int, b.len() as int));
                    assert(self.out@ =~= start + expected->Ok_0.0);
                }
            },
            Statement::If { condition, accept, reject } => {
                return self.write_if_statement(
                    m, info, kind, func, func_info, statement, *condition, accept, reject, indent,
                    indent_str.as_str(),
                );
            },
            Statement::Return { value } => {
                self.out.append(indent_str.as_str());
                self.out.append("return");
                if let Some(expr) = value {
                    self.out.append(" ");
                    let ghost a = self.out@;
                    let r = self.write_expr_handle(m, info, kind, func, func_info, *expr);
                    if r.is_err() {
                        return r;
                    }
                    let ghost b = self.out@;
                    proof {
                        assert(b =~= a + b.subrange(a.len() as int, b.len() as int));
                    }
                }
                self.out.append(";");
                self.out.append("\n");
                proof {
                    assert(self.out@ =~= start + expected->Ok_0.0);
                }
            },
            Statement::Loop { body, continuing, break_if } => {
                return self.write_loop_statement(
                    m, info, kind, func, func_info, statement, body, continuing, *break_if, indent,
                    indent_str.as_str(), inner_indent.as_str(),
                );
            },
            Statement::Break => {
                self.out.append(indent_str.as_str());
                self.out.append("break;");
                self.out.append("\n");
                proof {
                    assert(self.out@ =~= start + expected->Ok_0.0);
                }
            },
            Statement::Continue => {
                self.out.append(indent_str.as_str());
                self.out.append("continue;");
                self.out.append("\n");
                proof {
                    assert(self.out@ =~= start + expected->Ok_0.0);
                }
            },
            Statement::Store { pointer, value } => {
                self.out.append(indent_str.as_str());
                let ghost a = self.out@;
                let r = self.write_expr_handle(m, info, kind, func, func_info, *pointer);
                if r.is_err() {
                    return r;
                }
                let ghost b = self.out@;
                self.out.append(" = ");
                let ghost c = self.out@;
                let r = self.write_expr_handle(m, info, kind, func, func_info, *value);
                if r.is_err() {
                    return r;
                }
                let ghost d = self.out@;
                self.out.append(";");
                self.out.append("\n");
                proof {
                    assert(b =~= a + b.subrange(a.len() as int, b.len() as int));
                    assert(d =~= c + d.subrange(c.len() as int, d.len() as int));
                    assert(self.out@ =~= start + expected->Ok_0.0);
                }
            },
            Statement::Call { function, arguments, result } => {
                proof {
                    assert(stmt_ok(bs, *statement, indent as nat));
                }
                return self.write_call_statement(
                    m, info, kind, func, func_info, *function, arguments, *result, indent,
                    indent_str.as_str(),
                );
            },
            Statement::Other => {
                self.out.append(indent_str.as_str());
                self.out.append("// Unsupported statement");
                self.out.append("\n");
                proof {
                    assert(self.out@ =~= start + expected->Ok_0.0);
                }
            },
        }
        Ok(())
    }

    #[verifier::rlimit(50)]
    fn write_if_statement(
        &mut self,
        m: &Module,
        info: &ModuleInfo,
        kind: FunctionKind,
        func: &Function,
        func_info: &FunctionInfo,
        statement: &Statement,
        condition: usize,
        accept: &Vec<Statement>,
        reject: &Vec<Statement>,
        indent: usize,
        indent_str: &str,
    ) -> (r: Result<(), Error>)
        requires
            old(self).inv(),
            types_ok(m.types@),
            arena_ok(body_exprs(body_of(m, kind, func, func_info))),
            *statement == (Statement::If { condition, accept: *accept, reject: *reject }),
            stmt_ok(body_of(m, kind, func, func_info), *statement, indent as nat),
            indent_str@ == indent_text(indent as nat),
        ensures
            final(self).inv(),
            stepped(
                r,
                old(self).out@,
                final(self).out@,
                final(self).state(),
                if_text(body_of(m, kind, func, func_info), *statement, indent as nat, old(self).state()),
            ),
        decreases statement, 2int,
    {
        let ghost bs = body_of(m, kind, func, func_info);
        let ghost st = self.state();
        let ghost start = self.out@;
        self.out.append(indent_str);
        self.out.append("if (");
        let ghost a = self.out@;
        let r = self.write_expr_handle(m, info, kind, func, func_info, condition);
        if r.is_err() {
            return r;
        }
        let ghost b = self.out@;
        let ghost ct = b.subrange(a.len() as int, b.len() as int);
        proof {
            assert(b =~= a + ct);
        }
        self.out.append(") {");
        self.out.append("\n");
        let ghost c = self.out@;
        let ghost open = indent_str@ + "if ("@ + ct + ") {"@ + "\n"@;
        proof {
            assert(c =~= start + open);
        }
        proof {
            assert(block_ok(bs, accept@, indent as nat + 1));
            assert(block_ok(bs, reject@, indent as nat + 1));
        }
        let r = self.write_if_blocks(m, info, kind, func, func_info, statement, condition, accept, reject, indent, indent_str);
        proof {
            assert(ct == expr_text(body_exprs(bs), st.calls, condition as int)->Ok_0);
            match if_blocks_text(bs, *statement, indent as nat, st) {
                Ok((t, st2)) => {
                    assert(if_text(bs, *statement, indent as nat, st)->Ok_0.0 =~= open + t);
                },
                Err(e) => {
                    assert(if_text(bs, *statement, indent as nat, st)->Err_0.written =~= open + e.written);
                },
            }
        }
        if r.is_err() {
            proof {
                assert(self.out@ =~= start + (open + if_blocks_text(bs, *statement, indent as nat, st)->Err_0.written));
            }
            return r;
        }
        proof {
            assert(self.out@ =~= start + (open + if_blocks_text(bs, *statement, indent as nat, st)->Ok_0.0));
        }
        Ok(())
    }

    /// The blocks of an `if` statement whose condition is written, and the
    /// closing brace.
    /// The accepted block of an `if` statement whose condition is
    /// written, then the rest of the statement.
    #[verifier::rlimit(40)]
    fn write_if_blocks(
        &mut self,
        m: &Module,
        info: &ModuleInfo,
        kind: FunctionKind,
        func: &Function,
        func_info: &FunctionInfo,
        statement: &Statement,
        condition: usize,
        accept: &Vec<Statement>,
        reject: &Vec<Statement>,
        indent: usize,
        indent_str: &str,
    ) -> (r: Result<(), Error>)
        requires
            old(self).inv(),
            types_ok(m.types@),
            arena_ok(body_exprs(body_of(m, kind, func, func_info))),
            *statement == (Statement::If { condition, accept: *accept, reject: *reject }),
            indent < usize::MAX,
            block_ok(body_of(m, kind, func, func_info), accept@, indent as nat + 1),
            block_ok(body_of(m, kind, func, func_info), reject@, indent as nat + 1),
            indent_str@ == indent_text(indent as nat),
        ensures
            final(self).inv(),
            stepped(
                r,
                old(self).out@,
                final(self).out@,
                final(self).state(),
                if_blocks_text(body_of(m, kind, func, func_info), *statement, indent as nat, old(self).state()),
            ),
        decreases statement, 1int,
    {
        let ghost bs = body_of(m, kind, func, func_info);
        let ghost st = self.state();
        let ghost start = self.out@;
        let r = self.write_block(m, info, kind, func, func_info, accept, indent + 1);
        if r.is_err() {
            return r;
        }
        let ghost d = self.out@;
        let ghost at = d.subrange(start.len() as int, d.len() as int);
        let ghost st1 = self.state();
        proof {
            assert(d =~= start + at);
            assert(at =~= block_text(bs, accept@, indent as nat + 1, st)->Ok_0.0);
            assert(st1 == block_text(bs, accept@, indent as nat + 1, st)->Ok_0.1);
        }
        let r = self.write_else(m, info, kind, func, func_info, statement, condition, accept, reject, indent, indent_str);
        proof {
            match else_text(bs, *statement, indent as nat, st1) {
                Ok((t, _)) => {
                    assert(r is Ok ==> self.out@ =~= start + (at + t));
                },
                Err(e) => {
                    assert(r is Err ==> self.out@ =~= start + (at + e.written));
                },
            }
        }
        r
    }

    /// When the rejected block of an `if` statement is not empty,
    /// `} else {` and that block; then the closing brace.
    #[verifier::rlimit(80)]
    fn write_else(
        &mut self,
        m: &Module,
        info: &ModuleInfo,
        kind: FunctionKind,
        func: &Function,
        func_info: &FunctionInfo,
        statement: &Statement,
        condition: usize,
        accept: &Vec<Statement>,
        reject: &Vec<Statement>,
        indent: usize,
        indent_str: &str,
    ) -> (r: Result<(), Error>)
        requires
            old(self).inv(),
            types_ok(m.types@),
            arena_ok(body_exprs(body_of(m, kind, func, func_info))),
            *statement == (Statement::If { condition, accept: *accept, reject: *reject }),
            indent < usize::MAX,
            block_ok(body_of(m, kind, func, func_info), reject@, indent as nat + 1),
            indent_str@ == indent_text(indent as nat),
        ensures
            final(self).inv(),
            stepped(
                r,
                old(self).out@,
                final(self).out@,
                final(self).state(),
                else_text(body_of(m, kind, func, func_info), *statement, indent as nat, old(self).state()),
            ),
        decreases statement, 0int,
    {
        let ghost bs = body_of(m, kind, func, func_info);
        let ghost st = self.state();
        let ghost start = self.out@;
        let ghost expected = else_text(bs, *statement, indent as nat, st);
        if reject.len() > 0 {
            self.out.append(indent_str);
            self.out.append("} else {");
            self.out.append("\n");
            let ghost e = self.out@;
            let r = self.write_block(m, info, kind, func, func_info, reject, indent + 1);
            if r.is_err() {
                proof {
                    let ew = block_text(bs, reject@, indent as nat + 1, st)->Err_0.written;
                    assert(self.out@ =~= start + ((indent_str@ + "} else {"@ + "\n"@) + ew));
                }
                return r;
            }
            let ghost f = self.out@;
            proof {
                assert(f =~= e + f.subrange(e.len() as int, f.len() as int));
            }
        }
        self.out.append(indent_str);
        self.out.append("}");
        self.out.append("\n");
        proof {
            assert(self.out@ =~= start + expected->Ok_0.0);
        }
        Ok(())
    }

    /// The `if (..) { break; }` that ends a loop with a break condition.
    fn write_break_if(
        &mut self,
        m: &Module,
        info: &ModuleInfo,
        kind: FunctionKind,
        func: &Function,
        func_info: &FunctionInfo,
        break_if: Option<usize>,
        indent: usize,
        inner_indent: &str,
    ) -> (r: Result<(), Error>)
        requires
            arena_ok(body_exprs(body_of(m, kind, func, func_info))),
            inner_indent@ == indent_text(indent as nat + 1),
            match break_if {
                Some(cond) => cond < func.expressions@.len(),
                None => true,
            },
        ensures
            final(self).call_results == old(self).call_results,
            final(self).temp_counter == old(self).temp_counter,
            written(
                r,
                old(self).out@,
                final(self).out@,
                break_if_text(body_of(m, kind, func, func_info), break_if, indent as nat, old(self).calls()),
            ),
    {
        let ghost start = self.out@;
        if let Some(expr) = break_if {
            self.out.append(inner_indent);
            self.out.append("if (");
            let ghost d = self.out@;
            let r = self.write_expr_handle(m, info, kind, func, func_info, expr);
            if r.is_err() {
                return r;
            }
            let ghost e = self.out@;
            self.out.append(") {");
            self.out.append("\n");
            self.out.append(inner_indent);
            self.out.append("    break;");
            self.out.append("\n");
            self.out.append(inner_indent);
            self.out.append("}");
            self.out.append("\n");
            proof {
                assert(e =~= d + e.subrange(d.len() as int, e.len() as int));
                let x = e.subrange(d.len() as int, e.len() as int);
                assert(x =~= expr_text(body_exprs(body_of(m, kind, func, func_info)), old(self).calls(), expr as int)->Ok_0);
                assert(self.out@ =~= start + (inner_indent@ + "if ("@ + x + ") {"@ + "\n"@ + inner_indent@
                    + "    break;"@ + "\n"@ + inner_indent@ + "}"@ + "\n"@));
            }
        } else {
            assert(self.out@ =~= start + Seq::<char>::empty());
        }
        Ok(())
    }

    #[verifier::rlimit(40)]
    fn write_loop_statement(
        &mut self,
        m: &Module,
        info: &ModuleInfo,
        kind: FunctionKind,
        func: &Function,
        func_info: &FunctionInfo,
        statement: &Statement,
        body: &Vec<Statement>,
        continuing: &Vec<Statement>,
        break_if: Option<usize>,
        indent: usize,
        indent_str: &str,
        inner_indent: &str,
    ) -> (r: Result<(), Error>)
        requires
            old(self).inv(),
            types_ok(m.types@),
            arena_ok(body_exprs(body_of(m, kind, func, func_info))),
            *statement == (Statement::Loop { body: *body, continuing: *continuing, break_if }),
            stmt_ok(body_of(m, kind, func, func_info), *statement, indent as nat),
            indent_str@ == indent_text(indent as nat),
            inner_indent@ == indent_text(indent as nat + 1),
        ensures
            final(self).inv(),
            stepped(
                r,
                old(self).out@,
                final(self).out@,
                final(self).state(),
                loop_text(body_of(m, kind, func, func_info), *statement, indent as nat, old(self).state()),
            ),
        decreases statement, 2int,
    {
        let ghost bs = body_of(m, kind, func, func_info);
        let ghost st = self.state();
        let ghost start = self.out@;
        self.out.append(indent_str);
        self.out.append("while (true) {");
        self.out.append("\n");
        let ghost a = self.out@;
        let ghost open = indent_str@ + "while (true) {"@ + "\n"@;
        proof {
            assert(block_ok(bs, body@, indent as nat + 1));
            assert(block_ok(bs, continuing@, indent as nat + 1));
        }
        let r = self.write_block(m, info, kind, func, func_info, body, indent + 1);
        if r.is_err() {
            proof {
                let ew = block_text(bs, body@, indent as nat + 1, st)->Err_0.written;
                assert(self.out@ =~= start + (open + ew));
            }
            return r;
        }
        let ghost b = self.out@;
        let ghost bt = b.subrange(a.len() as int, b.len() as int);
        let ghost st1 = self.state();
        proof {
            assert(b =~= a + bt);
            assert(bt =~= block_text(bs, body@, indent as nat + 1, st)->Ok_0.0);
            assert(st1 == block_text(bs, body@, indent as nat + 1, st)->Ok_0.1);
        }
        let r = self.write_loop_tail(m, info, kind, func, func_info, statement, body, continuing, break_if, indent, indent_str, inner_indent);
        proof {
            match loop_tail_text(bs, *statement, indent as nat, st1) {
                Ok((t, _)) => {
                    assert(r is Ok ==> self.out@ =~= start + (open + bt + t));
                },
                Err(e) => {
                    assert(r is Err ==> self.out@ =~= start + ((open + bt) + e.written));
                },
            }
        }
        r
    }

    /// The continuing block of a loop whose body is written, its break
    /// condition and the closing brace.
    #[verifier::rlimit(40)]
    fn write_loop_tail(
        &mut self,
        m: &Module,
        info: &ModuleInfo,
        kind: FunctionKind,
        func: &Function,
        func_info: &FunctionInfo,
        statement: &Statement,
        body: &Vec<Statement>,
        continuing: &Vec<Statement>,
        break_if: Option<usize>,
        indent: usize,
        indent_str: &str,
        inner_indent: &str,
    ) -> (r: Result<(), Error>)
        requires
            old(self).inv(),
            types_ok(m.types@),
            arena_ok(body_exprs(body_of(m, kind, func, func_info))),
            *statement == (Statement::Loop { body: *body, continuing: *continuing, break_if }),
            indent < usize::MAX,
            block_ok(body_of(m, kind, func, func_info), continuing@, indent as nat + 1),
            match break_if {
                Some(cond) => cond < func.expressions@.len(),
                None => true,
            },
            indent_str@ == indent_text(indent as nat),
            inner_indent@ == indent_text(indent as nat + 1),
        ensures
            final(self).inv(),
            stepped(
                r,
                old(self).out@,
                final(self).out@,
                final(self).state(),
                loop_tail_text(body_of(m, kind, func, func_info), *statement, indent as nat, old(self).state()),
            ),
        decreases statement, 1int,
    {
        let ghost bs = body_of(m, kind, func, func_info);
        let ghost st = self.state();
        let ghost start = self.out@;
        let ghost expected = loop_tail_text(bs, *statement, indent as nat, st);
        if continuing.len() > 0 {
            let r = self.write_block(m, info, kind, func, func_info, continuing, indent + 1);
            if r.is_err() {
                return r;
            }
        }
        let ghost c = self.out@;
        let ghost ct = c.subrange(start.len() as int, c.len() as int);
        proof {
            assert(c =~= start + ct);
        }
        let ghost st2 = self.state();
        let r = self.write_break_if(m, info, kind, func, func_info, break_if, indent, inner_indent);
        if r.is_err() {
            proof {
                let ew = break_if_text(bs, break_if, indent as nat, st2.calls)->Err_0.written;
                assert(self.out@ =~= start + (ct + ew));
            }
            return r;
        }
        let ghost d = self.out@;
        proof {
            assert(d =~= c + d.subrange(c.len() as int, d.len() as int));
        }
        self.out.append(indent_str);
        self.out.append("}");
        self.out.append("\n");
        proof {
            assert(self.out@ =~= start + expected->Ok_0.0);
        }
        Ok(())
    }

    fn write_call_statement(
        &mut self,
        m: &Module,
        info: &ModuleInfo,
        kind: FunctionKind,
        func: &Function,
        func_info: &FunctionInfo,
        function: usize,
        arguments: &Vec<usize>,
        result: Option<usize>,
        indent: usize,
        indent_str: &str,
    ) -> (r: Result<(), Error>)
        requires
            old(self).inv(),
            types_ok(m.types@),
            arena_ok(body_exprs(body_of(m, kind, func, func_info))),
            indent < usize::MAX,
            m.names.has(NameKey::Function(function)),
            forall|i: int| 0 <= i < arguments@.len() ==> #[trigger] arguments@[i] < func.expressions@.len(),
            result is Some ==> {
                &&& function < m.functions@.len()
                &&& match m.functions@[function as int].result {
                    Some(callee_result) => callee_result.ty < m.types@.len(),
                    None => true,
                }
            },
            indent_str@ == indent_text(indent as nat),
        ensures
            final(self).inv(),
            stepped(
                r,
                old(self).out@,
                final(self).out@,
                final(self).state(),
                call_stmt_text(body_of(m, kind, func, func_info), function, arguments@, result, indent as nat, old(self).state()),
            ),
    {
        let ghost bs = body_of(m, kind, func, func_info);
        let ghost st = self.state();
        let ghost start = self.out@;
        let ghost expected = call_stmt_text(bs, function, arguments@, result, indent as nat, st);
        match result {
            Some(result_handle) => {
                let name = self.ensure_call_result_name(m, kind, func, func_info, result_handle, function);
                let ghost st1 = self.state();
                let callee = &m.functions[function];
                match &callee.result {
                    None => {
                        return Err(Error::Unsupported(
                            String::from_str("call with result from void function"),
                        ));
                    },
                    Some(callee_result) => {
                        self.out.append(indent_str);
                        let ghost a = self.out@;
                        let r = self.write_type(callee_result.ty, &m.types);
                        if r.is_err() {
                            return r;
                        }
                        let ghost b = self.out@;
                        self.out.append(" ");
                        self.out.append(name.as_str());
                        self.out.append(" = ");
                        let ghost c = self.out@;
                        let r = self.write_function_call(m, info, kind, func, func_info, function, arguments);
                        if r.is_err() {
                            return r;
                        }
                        let ghost d = self.out@;
                        self.out.append(";");
                        self.out.append("\n");
                        proof {
                            assert(b =~= a + b.subrange(a.len() as int, b.len() as int));
                            assert(d =~= c + d.subrange(c.len() as int, d.len() as int));
                            assert(self.out@ =~= start + expected->Ok_0.0);
                        }
                    },
                }
            },
            None => {
                self.out.append(indent_str);
                let ghost a = self.out@;
                let r = self.write_function_call(m, info, kind, func, func_info, function, arguments);
                if r.is_err() {
                    return r;
                }
                let ghost b = self.out@;
                self.out.append(";");
                self.out.append("\n");
                proof {
                    assert(b =~= a + b.subrange(a.len() as int, b.len() as int));
                    assert(self.out@ =~= start + expected->Ok_0.0);
                }
            },
        }
        Ok(())
    }

    /// The validation info of the function being written.
    fn current_function_info<'b>(info: &'b ModuleInfo, kind: FunctionKind) -> (fi: &'b FunctionInfo)
        requires
            match kind {
                FunctionKind::Function(handle) => handle < info.functions@.len(),
                FunctionKind::EntryPoint(index) => index < info.entry_points@.len(),
            },
        ensures
            *fi == match kind {
                FunctionKind::Function(handle) => info.functions@[handle as int],
                FunctionKind::EntryPoint(index) => info.entry_points@[index as int],
            },
    {
        match kind {
            FunctionKind::Function(handle) => &info.functions[handle],
            FunctionKind::EntryPoint(index) => &info.entry_points[index as usize],
        }
    }

    #[verifier::rlimit(80)]
    fn write_local_declarations(
        &mut self,
        m: &Module,
        info: &ModuleInfo,
        kind: FunctionKind,
        func: &Function,
        func_info: &FunctionInfo,
        indent: usize,
    ) -> (r: Result<(), Error>)
        requires
            types_ok(m.types@),
            body_ok(body_of(m, kind, func, func_info)),
        ensures
            final(self).call_results == old(self).call_results,
            final(self).temp_counter == old(self).temp_counter,
            written(
                r,
                old(self).out@,
                final(self).out@,
                local_declarations_text(body_of(m, kind, func, func_info), old(self).calls(), indent as nat),
            ),
    {
        if func.local_variables.len() == 0 {
            proof {
                assert(self.out@ =~= old(self).out@ + Seq::<char>::empty());
            }
            return Ok(());
        }
        let ghost bs = body_of(m, kind, func, func_info);
        let ghost calls = self.calls();
        let ghost start = self.out@;
        let indent_str = indent_string(indent);
        let ghost mut done: Seq<char> = Seq::empty();
        let mut i: usize = 0;
        proof {
            assert(start =~= start + done);
        }
        while i < func.local_variables.len()
            invariant
                i <= func.local_variables@.len(),
                types_ok(m.types@),
                body_ok(bs),
                bs == body_of(m, kind, func, func_info),
                indent_str@ == crate::text::indent_text(indent as nat),
                calls == self.calls(),
                calls == old(self).calls(),
                start == old(self).out@,
                self.call_results == old(self).call_results,
                self.temp_counter == old(self).temp_counter,
                self.out@ == start + done,
                locals_from(bs, calls, indent as nat, 0) == prepend(done, locals_from(bs, calls, indent as nat, i as nat)),
            decreases func.local_variables@.len() - i,
        {
            proof {
                assert(local_ok(bs, i as int));
                assert(scope_of(m, info, Some(kind), func.expressions@, Some(func_info)) == body_exprs(bs));
            }
            let local = &func.local_variables[i];
            let local_name = String::from_str(Self::name(&m.names, Self::local_name_key(kind, i)));
            let ghost before = self.out@;
            self.out.append(indent_str.as_str());
            let ghost a = self.out@;
            let r = self.write_type(local.ty, &m.types);
            if r.is_err() {
                proof {
                    let ew = type_text(m.types@, local.ty as int)->Err_0.written;
                    assert(self.out@ =~= start + (done + (indent_str@ + ew)));
                }
                return r;
            }
            let ghost b = self.out@;
            self.out.append(" ");
            self.out.append(local_name.as_str());
            let ghost c = self.out@;
            let ghost mut init_text: Seq<char> = Seq::empty();
            if let Some(init) = local.init {
                self.out.append(" = ");
                let ghost c2 = self.out@;
                let r = self.write_expression_arena(m, info, Some(kind), init, &func.expressions, Some(func_info));
                if r.is_err() {
                    proof {
                        let tt = b.subrange(a.len() as int, b.len() as int);
                        assert(b =~= a + tt);
                        assert(tt =~= type_text(m.types@, local.ty as int)->Ok_0);
                        let ew = expr_text(body_exprs(bs), calls, init as int)->Err_0.written;
                        assert(self.out@ =~= start + (done + ((indent_str@ + tt + " "@ + local_name@) + (" = "@ + ew))));
                    }
                    return r;
                }
                let ghost d = self.out@;
                proof {
                    let x = d.subrange(c2.len() as int, d.len() as int);
                    assert(d =~= c2 + x);
                    assert(x =~= expr_text(body_exprs(bs), calls, init as int)->Ok_0);
                    init_text = " = "@ + x;
                    assert(d =~= c + init_text);
                }
            } else {
                proof {
                    assert(c =~= c + init_text);
                }
            }
            let ghost e = self.out@;
            self.out.append(";");
            self.out.append("\n");
            proof {
                let tt = b.subrange(a.len() as int, b.len() as int);
                assert(b =~= a + tt);
                assert(tt =~= type_text(m.types@, local.ty as int)->Ok_0);
                let head = indent_str@ + tt + " "@ + local_name@;
                assert(c =~= before + head);
                assert(local_name@ == bs.names.text(local_key(bs.kind, i)));
                let t = self.out@.subrange(before.len() as int, self.out@.len() as int);
                assert(t =~= head + init_text + ";"@ + "\n"@);
                assert(self.out@ =~= before + t);
                let rest = locals_from(bs, calls, indent as nat, (i + 1) as nat);
                assert(locals_from(bs, calls, indent as nat, i as nat) == prepend(t, rest));
                match rest {
                    Ok(rt) => {
                        assert(done + t + rt =~= done + (t + rt));
                    },
                    Err(e) => {
                        assert(done + t + e.written =~= done + (t + e.written));
                    },
                }
                done = done + t;
            }
            i = i + 1;
        }
        self.out.append("\n");
        proof {
            assert(self.out@ =~= start + local_declarations_text(bs, calls, indent as nat)->Ok_0);
        }
        Ok(())
    }

    /// A function body: fresh call-result names, the local declarations,
    /// the statements, and the closing brace.
    fn write_body(
        &mut self,
        m: &Module,
        info: &ModuleInfo,
        kind: FunctionKind,
        func: &Function,
        func_info: &FunctionInfo,
    ) -> (r: Result<(), Error>)
        requires
            types_ok(m.types@),
            body_ok(body_of(m, kind, func, func_info)),
        ensures
            final(self).inv(),
            stepped(
                r,
                old(self).out@,
                final(self).out@,
                final(self).state(),
                body_text(body_of(m, kind, func, func_info)),
            ),
    {
        let ghost bs = body_of(m, kind, func, func_info);
        let ghost start = self.out@;
        self.call_results = Vec::new();
        self.temp_counter = 0;
        proof {
            reveal(keys_distinct);
            assert(keys_distinct(self.call_results@));
            assert(self.state() =~= fresh_calls());
        }
        let r = self.write_local_declarations(m, info, kind, func, func_info, 1);
        if r.is_err() {
            return r;
        }
        let ghost a = self.out@;
        let r = self.write_block(m, info, kind, func, func_info, &func.body, 1);
        if r.is_err() {
            return r;
        }
        let ghost b = self.out@;
        self.out.append("}");
        self.out.append("\n");
        self.out.append("\n");
        proof {
            assert(a =~= start + a.subrange(start.len() as int, a.len() as int));
            assert(b =~= a + b.subrange(a.len() as int, b.len() as int));
            assert(self.out@ =~= start + body_text(bs)->Ok_0.0);
        }
        Ok(())
    }

    /// The parameters of function `handle`: type and name, separated by
    /// commas.
    fn write_parameters(&mut self, m: &Module, handle: usize, func: &Function) -> (r: Result<(), Error>)
        requires
            handle < m.functions@.len(),
            *func == m.functions@[handle as int],
            types_ok(m.types@),
            forall|i: int| 0 <= i < func.arguments@.len() ==> #[trigger] argument_ok(*m, handle, i),
        ensures
            final(self).call_results == old(self).call_results,
            final(self).temp_counter == old(self).temp_counter,
            written(r, old(self).out@, final(self).out@, parameters_from(*m, handle, 0)),
    {
        let ghost mid = self.out@;
        let ghost mut done: Seq<char> = Seq::empty();
        let mut index: usize = 0;
        proof {
            assert(mid =~= mid + done);
        }
        while index < func.arguments.len()
            invariant
                index <= func.arguments@.len(),
                handle < m.functions@.len(),
                *func == m.functions@[handle as int],
                types_ok(m.types@),
                forall|i: int| 0 <= i < func.arguments@.len() ==> #[trigger] argument_ok(*m, handle, i),
                self.out@ == mid + done,
                mid == old(self).out@,
                self.call_results == old(self).call_results,
                self.temp_counter == old(self).temp_counter,
                parameters_from(*m, handle, 0) == prepend(done, parameters_from(*m, handle, index as nat)),
            decreases func.arguments@.len() - index,
        {
            proof {
                assert(argument_ok(*m, handle, index as int));
            }
            let arg = &func.arguments[index];
            let ghost before = self.out@;
            if index > 0 {
                self.out.append(", ");
            }
            let ghost a1 = self.out@;
            let r = self.write_type(arg.ty, &m.types);
            if r.is_err() {
                return r;
            }
            let ghost b1 = self.out@;
            self.out.append(" ");
            let key = NameKey::FunctionArgument(handle, index as u32);
            let arg_name = String::from_str(Self::name(&m.names, key));
            self.out.append(arg_name.as_str());
            proof {
                let tt = b1.subrange(a1.len() as int, b1.len() as int);
                assert(b1 =~= a1 + tt);
                assert(tt =~= type_text(m.types@, arg.ty as int)->Ok_0);
                assert(key == NameKey::FunctionArgument(handle, (index as nat) as u32));
                let sep: Seq<char> = if index > 0 { ", "@ } else { Seq::empty() };
                assert(a1 =~= before + sep);
                let t = self.out@.subrange(before.len() as int, self.out@.len() as int);
                assert(t =~= sep + tt + " "@ + arg_name@);
                assert(self.out@ =~= before + t);
                let rest = parameters_from(*m, handle, (index + 1) as nat);
                assert(parameters_from(*m, handle, index as nat) == prepend(t, rest));
                match rest {
                    Ok(rt) => {
                        assert(done + t + rt =~= done + (t + rt));
                    },
                    Err(e) => {
                        assert(done + t + e.written =~= done + (t + e.written));
                    },
                }
                done = done + t;
            }
            index = index + 1;
        }
        proof {
            assert(self.out@ =~= mid + parameters_from(*m, handle, 0)->Ok_0);
        }
        Ok(())
    }

    #[verifier::rlimit(30)]
    fn write_function(
        &mut self,
        m: &Module,
        info: &ModuleInfo,
        handle: usize,
        func: &Function,
    ) -> (r: Result<(), Error>)
        requires
            handle < m.functions@.len(),
            *func == m.functions@[handle as int],
            info.functions@.len() == m.functions@.len(),
            types_ok(m.types@),
            function_ok(*m, *info, handle),
            old(self).inv(),
        ensures
            final(self).inv(),
            stepped(r, old(self).out@, final(self).out@, final(self).state(), function_text(*m, *info, handle)),
    {
        let ghost start = self.out@;
        let func_name = String::from_str(Self::name(&m.names, NameKey::Function(handle)));
        match &func.result {
            Some(result) => {
                let r = self.write_type(result.ty, &m.types);
                if r.is_err() {
                    return r;
                }
            },
            None => {
                self.out.append("void");
            },
        }
        let ghost a = self.out@;
        self.out.append(" ");
        self.out.append(func_name.as_str());
        self.out.append("(");
        let ghost mid = self.out@;
        proof {
            assert(function_ok(*m, *info, handle));
        }
        let ghost open = mid.subrange(start.len() as int, mid.len() as int);
        proof {
            assert(mid =~= start + open);
        }
        let r = self.write_parameters(m, handle, func);
        if r.is_err() {
            proof {
                assert(self.out@ =~= start + (open + parameters_from(*m, handle, 0)->Err_0.written));
            }
            return r;
        }
        proof {
            assert(self.out@ =~= mid + self.out@.subrange(mid.len() as int, self.out@.len() as int));
        }
        self.out.append(") {");
        self.out.append("\n");
        let ghost head = self.out@;
        let kind = FunctionKind::Function(handle);
        let func_info = Self::current_function_info(info, kind);
        proof {
            assert(body_of(m, kind, func, func_info) == function_scope(*m, *info, handle));
        }
        let ghost head_text = head.subrange(start.len() as int, head.len() as int);
        proof {
            assert(head =~= start + head_text);
        }
        let r = self.write_body(m, info, kind, func, func_info);
        if r.is_err() {
            proof {
                assert(self.out@ =~= start + (head_text + body_text(function_scope(*m, *info, handle))->Err_0.written));
            }
            return r;
        }
        proof {
            assert(a =~= start + a.subrange(start.len() as int, a.len() as int));
            assert(head =~= start + head.subrange(start.len() as int, head.len() as int));
            assert(self.out@ =~= head + self.out@.subrange(head.len() as int, self.out@.len() as int));
            assert(self.out@ =~= start + function_text(*m, *info, handle)->Ok_0.0);
        }
        Ok(())
    }

    fn write_entry_point(
        &mut self,
        m: &Module,
        info: &ModuleInfo,
        ep: &EntryPoint,
        index: usize,
    ) -> (r: Result<(), Error>)
        requires
            index < m.entry_points@.len(),
            *ep == m.entry_points@[index as int],
            info.entry_points@.len() == m.entry_points@.len(),
            types_ok(m.types@),
            entry_point_ok(*m, *info, index),
            old(self).inv(),
        ensures
            final(self).inv(),
            stepped(r, old(self).out@, final(self).out@, final(self).state(), entry_point_text(*m, *info, index)),
    {
        let ep_index = index as u16;
        proof {
            assert(ep_index as usize <= index) by (bit_vector)
                requires
                    ep_index == index as u16;
        }
        match ep.stage {
            ShaderStage::Compute => {},
            _ => {
                return Err(Error::InvalidStage(ep.stage));
            },
        }
        let ghost start = self.out@;
        let ep_name = String::from_str(Self::name(&m.names, NameKey::EntryPoint(ep_index)));
        self.out.append("void ");
        self.out.append(ep_name.as_str());
        self.out.append("() {");
        self.out.append("\n");
        let ghost head = self.out@;
        let kind = FunctionKind::EntryPoint(ep_index);
        let func_info = Self::current_function_info(info, kind);
        proof {
            assert(body_of(m, kind, &ep.function, func_info) == entry_point_scope(*m, *info, index));
        }
        let r = self.write_body(m, info, kind, &ep.function, func_info);
        if r.is_err() {
            return r;
        }
        proof {
            assert(self.out@ =~= head + self.out@.subrange(head.len() as int, self.out@.len() as int));
            assert(self.out@ =~= start + entry_point_text(*m, *info, index)->Ok_0.0);
        }
        Ok(())
    }

    fn write_type_definition(&mut self, m: &Module, handle: usize, ty: &Type) -> (r: Result<(), Error>)
        requires
            types_ok(m.types@),
            handle < m.types@.len(),
            *ty == m.types@[handle as int],
        ensures
            final(self).call_results == old(self).call_results,
            final(self).temp_counter == old(self).temp_counter,
            written(r, old(self).out@, final(self).out@, type_definition_text(m.types@, *ty)),
    {
        let ghost start = self.out@;
        if let Some(name) = &ty.name {
            match &ty.inner {
                TypeInner::Struct { members, .. } => {
                    proof {
                        assert(type_ok(m.types@, handle as int));
                    }
                    self.out.append("struct ");
                    self.out.append(name.as_str());
                    self.out.append(" {");
                    self.out.append("\n");
                    let ghost mid = self.out@;
                    let ghost mut done: Seq<char> = Seq::empty();
                    let mut i: usize = 0;
                    proof {
                        assert(members@.skip(0) =~= members@);
                        assert(mid =~= mid + done);
                    }
                    while i < members.len()
                        invariant
                            i <= members@.len(),
                            types_ok(m.types@),
                            forall|j: int| 0 <= j < members@.len() ==> #[trigger] members@[j].ty < m.types@.len(),
                            ty.name == Some(*name),
                            ty.inner matches TypeInner::Struct { members: ms, .. } && ms == *members,
                            start == old(self).out@,
                            self.out@ == mid + done,
                            mid == old(self).out@ + ("struct "@ + name@ + " {"@ + "\n"@),
                            self.call_results == old(self).call_results,
                            self.temp_counter == old(self).temp_counter,
                            members_text(m.types@, members@) == prepend(done, members_text(m.types@, members@.skip(i as int))),
                        decreases members@.len() - i,
                    {
                        proof {
                            assert(members@.skip(i as int).drop_first() =~= members@.skip(i + 1));
                            assert(members@.skip(i as int)[0] == members@[i as int]);
                        }
                        let member = &members[i];
                        let member_name = match &member.name {
                            Some(member_name) => member_name.as_str(),
                            None => "_field",
                        };
                        let ghost before = self.out@;
                        self.out.append("    ");
                        let ghost a = self.out@;
                        let r = self.write_type(member.ty, &m.types);
                        if r.is_err() {
                            proof {
                                let ew = type_text(m.types@, member.ty as int)->Err_0.written;
                                assert(members_text(m.types@, members@.skip(i as int)) is Err);
                                assert(self.out@ =~= old(self).out@ + (("struct "@ + name@ + " {"@ + "\n"@) + (done + ("    "@ + ew))));
                            }
                            return r;
                        }
                        let ghost b = self.out@;
                        self.out.append(" ");
                        self.out.append(member_name);
                        self.out.append(";");
                        self.out.append("\n");
                        proof {
                            let tt = b.subrange(a.len() as int, b.len() as int);
                            assert(b =~= a + tt);
                            assert(tt =~= type_text(m.types@, member.ty as int)->Ok_0);
                            let t = self.out@.subrange(before.len() as int, self.out@.len() as int);
                            assert(t =~= "    "@ + tt + " "@ + member_name@ + ";"@ + "\n"@);
                            assert(self.out@ =~= before + t);
                            let rest = members_text(m.types@, members@.skip(i + 1));
                            match rest {
                                Ok(rt) => {
                                    assert(done + t + rt =~= done + (t + rt));
                                },
                                Err(e) => {
                                    assert(done + t + e.written =~= done + (t + e.written));
                                },
                            }
                            done = done + t;
                        }
                        i = i + 1;
                    }
                    self.out.append("};");
                    self.out.append("\n");
                    self.out.append("\n");
                    proof {
                        assert(members@.skip(i as int) =~= Seq::<crate::ir::StructMember>::empty());
                        assert(self.out@ =~= start + type_definition_text(m.types@, *ty)->Ok_0);
                    }
                },
                _ => {
                    proof {
                        assert(self.out@ =~= start + Seq::<char>::empty());
                    }
                },
            }
        } else {
            proof {
                assert(self.out@ =~= start + Seq::<char>::empty());
            }
        }
        Ok(())
    }

    fn write_module_expression(&mut self, m: &Module, info: &ModuleInfo, handle: usize) -> (r: Result<(), Error>)
        requires
            handle < m.global_expressions@.len(),
            arena_ok(module_scope(*m, *info)),
        ensures
            final(self).call_results == old(self).call_results,
            final(self).temp_counter == old(self).temp_counter,
            written(r, old(self).out@, final(self).out@, expr_text(module_scope(*m, *info), old(self).calls(), handle as int)),
    {
        proof {
            assert(scope_of(m, info, None, m.global_expressions@, None) == module_scope(*m, *info));
        }
        self.write_expression_arena(m, info, None, handle, &m.global_expressions, None)
    }

    fn write_constant(&mut self, m: &Module, info: &ModuleInfo, handle: usize, constant: &Constant) -> (r: Result<(), Error>)
        requires
            types_ok(m.types@),
            arena_ok(module_scope(*m, *info)),
            handle < m.constants@.len(),
            *constant == m.constants@[handle as int],
            constant_ok(*m, handle),
        ensures
            final(self).call_results == old(self).call_results,
            final(self).temp_counter == old(self).temp_counter,
            written(r, old(self).out@, final(self).out@, constant_text(*m, *info, old(self).calls(), handle)),
    {
        let ghost start = self.out@;
        let const_name = String::from_str(Self::name(&m.names, NameKey::Constant(handle)));
        self.out.append("constexpr ");
        let ghost a = self.out@;
        let r = self.write_type(constant.ty, &m.types);
        if r.is_err() {
            return r;
        }
        let ghost b = self.out@;
        self.out.append(" ");
        self.out.append(const_name.as_str());
        self.out.append(" = ");
        let ghost c = self.out@;
        let r = self.write_module_expression(m, info, constant.init);
        if r.is_err() {
            return r;
        }
        let ghost d = self.out@;
        self.out.append(";");
        self.out.append("\n");
        proof {
            assert(b =~= a + b.subrange(a.len() as int, b.len() as int));
            assert(d =~= c + d.subrange(c.len() as int, d.len() as int));
            assert(self.out@ =~= start + constant_text(*m, *info, old(self).calls(), handle)->Ok_0);
        }
        Ok(())
    }

    fn write_global_variable(&mut self, m: &Module, info: &ModuleInfo, handle: usize, var: &GlobalVariable) -> (r: Result<(), Error>)
        requires
            types_ok(m.types@),
            arena_ok(module_scope(*m, *info)),
            handle < m.global_variables@.len(),
            *var == m.global_variables@[handle as int],
            global_variable_ok(*m, handle),
        ensures
            final(self).call_results == old(self).call_results,
            final(self).temp_counter == old(self).temp_counter,
            written(r, old(self).out@, final(self).out@, global_variable_text(*m, *info, old(self).calls(), handle)),
    {
        let ghost start = self.out@;
        match var.space {
            crate::ir::AddressSpace::Storage
            | crate::ir::AddressSpace::Uniform
            | crate::ir::AddressSpace::Private
            | crate::ir::AddressSpace::Function => {
                let var_name = String::from_str(Self::name(&m.names, NameKey::GlobalVariable(handle)));
                let ghost a = self.out@;
                let r = self.write_type(var.ty, &m.types);
                if r.is_err() {
                    return r;
                }
                let ghost b = self.out@;
                self.out.append(" ");
                self.out.append(var_name.as_str());
                if let Some(init) = var.init {
                    self.out.append(" = ");
                    let ghost c = self.out@;
                    let r = self.write_module_expression(m, info, init);
                    if r.is_err() {
                        return r;
                    }
                    let ghost d = self.out@;
                    proof {
                        assert(d =~= c + d.subrange(c.len() as int, d.len() as int));
                    }
                }
                self.out.append(";");
                self.out.append("\n");
                proof {
                    assert(b =~= a + b.subrange(a.len() as int, b.len() as int));
                    assert(self.out@ =~= start + global_variable_text(*m, *info, old(self).calls(), handle)->Ok_0);
                }
            },
            _ => {
                proof {
                    assert(self.out@ =~= start + Seq::<char>::empty());
                }
            },
        }
        Ok(())
    }

    /// The definitions of the module's named structure types.
    fn write_type_definitions(&mut self, m: &Module, info: &ModuleInfo) -> (r: Result<(), Error>)
        requires
            types_ok(m.types@),
        ensures
            final(self).call_results == old(self).call_results,
            final(self).temp_counter == old(self).temp_counter,
            written(r, old(self).out@, final(self).out@, type_definitions_from(m.types@, 0)),
    {
        let ghost start = self.out@;
        let ghost calls = self.calls();
        let ghost mut done: Seq<char> = Seq::empty();
        let mut i: usize = 0;
        proof {
            assert(start =~= start + done);
        }
        while i < m.types.len()
            invariant
                i <= m.types@.len(),
                types_ok(m.types@),
                start == old(self).out@,
                calls == old(self).calls(),
                calls == self.calls(),
                self.call_results == old(self).call_results,
                self.temp_counter == old(self).temp_counter,
                self.out@ == start + done,
                type_definitions_from(m.types@, 0) == prepend(done, type_definitions_from(m.types@, i as nat)),
            decreases m.types@.len() - i,
        {
            let ghost before = self.out@;
            let r = self.write_type_definition(m, i, &m.types[i]);
            if r.is_err() {
                return r;
            }
            proof {
                let t = self.out@.subrange(before.len() as int, self.out@.len() as int);
                assert(self.out@ =~= before + t);
                let rest = type_definitions_from(m.types@, (i + 1) as nat);
                assert(t =~= type_definition_text(m.types@, m.types@[i as int])->Ok_0);
                assert(type_definitions_from(m.types@, i as nat) == prepend(t, rest));
                match rest {
                    Ok(rt) => {
                        assert(done + t + rt =~= done + (t + rt));
                    },
                    Err(e) => {
                        assert(done + t + e.written =~= done + (t + e.written));
                    },
                }
                done = done + t;
            }
            i = i + 1;
        }
        Ok(())
    }

    /// The declarations of the module's constants.
    fn write_constants(&mut self, m: &Module, info: &ModuleInfo) -> (r: Result<(), Error>)
        requires
            types_ok(m.types@),
            arena_ok(module_scope(*m, *info)),
            forall|j: usize| j < m.constants@.len() ==> #[trigger] constant_ok(*m, j),
        ensures
            final(self).call_results == old(self).call_results,
            final(self).temp_counter == old(self).temp_counter,
            written(r, old(self).out@, final(self).out@, constants_from(*m, *info, old(self).calls(), 0)),
    {
        let ghost start = self.out@;
        let ghost calls = self.calls();
        let ghost mut done: Seq<char> = Seq::empty();
        let mut i: usize = 0;
        proof {
            assert(start =~= start + done);
        }
        while i < m.constants.len()
            invariant
                i <= m.constants@.len(),
                types_ok(m.types@),
                arena_ok(module_scope(*m, *info)),
                forall|j: usize| j < m.constants@.len() ==> #[trigger] constant_ok(*m, j),
                start == old(self).out@,
                calls == old(self).calls(),
                calls == self.calls(),
                self.call_results == old(self).call_results,
                self.temp_counter == old(self).temp_counter,
                self.out@ == start + done,
                constants_from(*m, *info, calls, 0) == prepend(done, constants_from(*m, *info, calls, i as nat)),
            decreases m.constants@.len() - i,
        {
            proof {
                assert(constant_ok(*m, i));
            }
            let ghost before = self.out@;
            let r = self.write_constant(m, info, i, &m.constants[i]);
            if r.is_err() {
                return r;
            }
            proof {
                let t = self.out@.subrange(before.len() as int, self.out@.len() as int);
                assert(self.out@ =~= before + t);
                let rest = constants_from(*m, *info, calls, (i + 1) as nat);
                assert(t =~= constant_text(*m, *info, calls, i)->Ok_0);
                assert(constants_from(*m, *info, calls, i as nat) == prepend(t, rest));
                match rest {
                    Ok(rt) => {
                        assert(done + t + rt =~= done + (t + rt));
                    },
                    Err(e) => {
                        assert(done + t + e.written =~= done + (t + e.written));
                    },
                }
                done = done + t;
            }
            i = i + 1;
        }
        Ok(())
    }

    /// The declarations of the module's global variables.
    fn write_global_variables(&mut self, m: &Module, info: &ModuleInfo) -> (r: Result<(), Error>)
        requires
            types_ok(m.types@),
            arena_ok(module_scope(*m, *info)),
            forall|j: usize| j < m.global_variables@.len() ==> #[trigger] global_variable_ok(*m, j),
        ensures
            final(self).call_results == old(self).call_results,
            final(self).temp_counter == old(self).temp_counter,
            written(r, old(self).out@, final(self).out@, global_variables_from(*m, *info, old(self).calls(), 0)),
    {
        let ghost start = self.out@;
        let ghost calls = self.calls();
        let ghost mut done: Seq<char> = Seq::empty();
        let mut i: usize = 0;
        proof {
            assert(start =~= start + done);
        }
        while i < m.global_variables.len()
            invariant
                i <= m.global_variables@.len(),
                types_ok(m.types@),
                arena_ok(module_scope(*m, *info)),
                forall|j: usize| j < m.global_variables@.len() ==> #[trigger] global_variable_ok(*m, j),
                start == old(self).out@,
                calls == old(self).calls(),
                calls == self.calls(),
                self.call_results == old(self).call_results,
                self.temp_counter == old(self).temp_counter,
                self.out@ == start + done,
                global_variables_from(*m, *info, calls, 0) == prepend(done, global_variables_from(*m, *info, calls, i as nat)),
            decreases m.global_variables@.len() - i,
        {
            proof {
                assert(global_variable_ok(*m, i));
            }
            let ghost before = self.out@;
            let r = self.write_global_variable(m, info, i, &m.global_variables[i]);
            if r.is_err() {
                return r;
            }
            proof {
                let t = self.out@.subrange(before.len() as int, self.out@.len() as int);
                assert(self.out@ =~= before + t);
                let rest = global_variables_from(*m, *info, calls, (i + 1) as nat);
                assert(t =~= global_variable_text(*m, *info, calls, i)->Ok_0);
                assert(global_variables_from(*m, *info, calls, i as nat) == prepend(t, rest));
                match rest {
                    Ok(rt) => {
                        assert(done + t + rt =~= done + (t + rt));
                    },
                    Err(e) => {
                        assert(done + t + e.written =~= done + (t + e.written));
                    },
                }
                done = done + t;
            }
            i = i + 1;
        }
        Ok(())
    }

    /// The definitions of the module's functions.
    fn write_functions(&mut self, m: &Module, info: &ModuleInfo) -> (r: Result<(), Error>)
        requires
            old(self).inv(),
            types_ok(m.types@),
            info.functions@.len() == m.functions@.len(),
            forall|j: usize| j < m.functions@.len() ==> #[trigger] function_ok(*m, *info, j),
        ensures
            final(self).inv(),
            stepped(r, old(self).out@, final(self).out@, final(self).state(), functions_from(*m, *info, 0, old(self).state())),
    {
        let ghost start = self.out@;
        let ghost st0 = self.state();
        let ghost mut done: Seq<char> = Seq::empty();
        let mut i: usize = 0;
        proof {
            assert(start =~= start + done);
        }
        while i < m.functions.len()
            invariant
                i <= m.functions@.len(),
                self.inv(),
                types_ok(m.types@),
                info.functions@.len() == m.functions@.len(),
                forall|j: usize| j < m.functions@.len() ==> #[trigger] function_ok(*m, *info, j),
                start == old(self).out@,
                st0 == old(self).state(),
                self.out@ == start + done,
                functions_from(*m, *info, 0, st0) == prepend_state(done, functions_from(*m, *info, i as nat, self.state())),
            decreases m.functions@.len() - i,
        {
            proof {
                assert(function_ok(*m, *info, i));
            }
            let ghost before = self.out@;
            let ghost st = self.state();
            let r = self.write_function(m, info, i, &m.functions[i]);
            if r.is_err() {
                return r;
            }
            proof {
                let t = self.out@.subrange(before.len() as int, self.out@.len() as int);
                assert(self.out@ =~= before + t);
                let rest = functions_from(*m, *info, (i + 1) as nat, self.state());
                assert(t =~= function_text(*m, *info, i)->Ok_0.0);
                assert(functions_from(*m, *info, i as nat, st) == prepend_state(t, rest));
                match rest {
                    Ok((rt, _)) => {
                        assert(done + t + rt =~= done + (t + rt));
                    },
                    Err(e) => {
                        assert(done + t + e.written =~= done + (t + e.written));
                    },
                }
                done = done + t;
            }
            i = i + 1;
        }
        Ok(())
    }

    /// The definitions of the module's entry points.
    fn write_entry_points(&mut self, m: &Module, info: &ModuleInfo) -> (r: Result<(), Error>)
        requires
            old(self).inv(),
            types_ok(m.types@),
            info.entry_points@.len() == m.entry_points@.len(),
            forall|j: usize| j < m.entry_points@.len() ==> #[trigger] entry_point_ok(*m, *info, j),
        ensures
            final(self).inv(),
            stepped(r, old(self).out@, final(self).out@, final(self).state(), entry_points_from(*m, *info, 0, old(self).state())),
    {
        let ghost start = self.out@;
        let ghost st0 = self.state();
        let ghost mut done: Seq<char> = Seq::empty();
        let mut i: usize = 0;
        proof {
            assert(start =~= start + done);
        }
        while i < m.entry_points.len()
            invariant
                i <= m.entry_points@.len(),
                self.inv(),
                types_ok(m.types@),
                info.entry_points@.len() == m.entry_points@.len(),
                forall|j: usize| j < m.entry_points@.len() ==> #[trigger] entry_point_ok(*m, *info, j),
                start == old(self).out@,
                st0 == old(self).state(),
                self.out@ == start + done,
                entry_points_from(*m, *info, 0, st0) == prepend_state(done, entry_points_from(*m, *info, i as nat, self.state())),
            decreases m.entry_points@.len() - i,
        {
            proof {
                assert(entry_point_ok(*m, *info, i));
            }
            let ghost before = self.out@;
            let ghost st = self.state();
            let r = self.write_entry_point(m, info, &m.entry_points[i], i);
            if r.is_err() {
                return r;
            }
            proof {
                let t = self.out@.subrange(before.len() as int, self.out@.len() as int);
                assert(self.out@ =~= before + t);
                let rest = entry_points_from(*m, *info, (i + 1) as nat, self.state());
                assert(t =~= entry_point_text(*m, *info, i)->Ok_0.0);
                assert(entry_points_from(*m, *info, i as nat, st) == prepend_state(t, rest));
                match rest {
                    Ok((rt, _)) => {
                        assert(done + t + rt =~= done + (t + rt));
                    },
                    Err(e) => {
                        assert(done + t + e.written =~= done + (t + e.written));
                    },
                }
                done = done + t;
            }
            i = i + 1;
        }
        Ok(())
    }

    /// The type definitions, constants and global variables of `m`.
    fn write_declarations(&mut self, m: &Module, info: &ModuleInfo) -> (r: Result<(), Error>)
        requires
            types_ok(m.types@),
            arena_ok(module_scope(*m, *info)),
            forall|j: usize| j < m.constants@.len() ==> #[trigger] constant_ok(*m, j),
            forall|j: usize| j < m.global_variables@.len() ==> #[trigger] global_variable_ok(*m, j),
        ensures
            final(self).call_results == old(self).call_results,
            final(self).temp_counter == old(self).temp_counter,
            written(r, old(self).out@, final(self).out@, declarations_text(*m, *info, old(self).calls())),
    {
        let ghost a = self.out@;
        let ghost calls = self.calls();
        let r = self.write_type_definitions(m, info);
        if r.is_err() {
            return r;
        }
        let ghost b = self.out@;
        let r = self.write_constants(m, info);
        if r.is_err() {
            return r;
        }
        let ghost c = self.out@;
        if m.constants.len() > 0 {
            self.out.append("\n");
        }
        let ghost d = self.out@;
        let r = self.write_global_variables(m, info);
        if r.is_err() {
            return r;
        }
        proof {
            let td = b.subrange(a.len() as int, b.len() as int);
            let ct = c.subrange(b.len() as int, c.len() as int);
            let sep = d.subrange(c.len() as int, d.len() as int);
            let gt = self.out@.subrange(d.len() as int, self.out@.len() as int);
            assert(b =~= a + td);
            assert(c =~= b + ct);
            assert(d =~= c + sep);
            assert(self.out@ =~= d + gt);
            assert(td =~= type_definitions_from(m.types@, 0)->Ok_0);
            assert(ct =~= constants_from(*m, *info, calls, 0)->Ok_0);
            assert(gt =~= global_variables_from(*m, *info, calls, 0)->Ok_0);
            assert(sep =~= (if m.constants@.len() > 0 { "\n"@ } else { Seq::<char>::empty() }));
            assert(self.out@ =~= a + (td + ct + sep + gt));
        }
        Ok(())
    }

    /// Appends the C++ text of `m`: the runtime include, the named
    /// structure types, the constants, the global variables, the functions
    /// and the entry points.
    #[verifier::rlimit(80)]
    pub fn write(&mut self, m: &Module, info: &ModuleInfo) -> (r: Result<(), Error>)
        requires
            old(self).inv(),
            module_ok(*m, *info),
        ensures
            final(self).inv(),
            stepped(r, old(self).output(), final(self).output(), final(self).state(), module_text(*m, *info, old(self).state())),
    {
        let ghost start = self.out@;
        let ghost st0 = self.state();
        self.out.append("#include \"wgsl_runtime.hpp\"");
        self.out.append("\n");
        self.out.append("\n");
        let ghost a = self.out@;
        let r = self.write_declarations(m, info);
        if r.is_err() {
            return r;
        }
        let ghost b = self.out@;
        assert(self.state() == st0);
        let r = self.write_functions(m, info);
        if r.is_err() {
            return r;
        }
        let ghost c = self.out@;
        let r = self.write_entry_points(m, info);
        if r.is_err() {
            return r;
        }
        proof {
            let decls = b.subrange(a.len() as int, b.len() as int);
            let ft = c.subrange(b.len() as int, c.len() as int);
            let et = self.out@.subrange(c.len() as int, self.out@.len() as int);
            assert(a =~= start + header_text());
            assert(b =~= a + decls);
            assert(c =~= b + ft);
            assert(self.out@ =~= c + et);
            assert(decls =~= declarations_text(*m, *info, st0.calls)->Ok_0);
            assert(ft =~= functions_from(*m, *info, 0, st0)->Ok_0.0);
            assert(et =~= entry_points_from(*m, *info, 0, functions_from(*m, *info, 0, st0)->Ok_0.1)->Ok_0.0);
            assert(self.out@ =~= start + (header_text() + decls + ft + et));
        }
        Ok(())
    }

    fn write_type(&mut self, ty_handle: usize, types: &Vec<Type>) -> (r: Result<(), Error>)
        requires
            ty_handle < types.len(),
            types_ok(types@),
        ensures
            final(self).call_results == old(self).call_results,
            final(self).temp_counter == old(self).temp_counter,
            written(r, old(self).out@, final(self).out@, type_text(types@, ty_handle as int)),
        decreases ty_handle,
    {
        let ghost start = self.out@;
        proof {
            assert(type_ok(types@, ty_handle as int));
        }
        let ty = &types[ty_handle];
        match &ty.inner {
            TypeInner::Scalar(scalar) => {
                self.out.append(scalar_to_cpp_type(*scalar));
            },
            TypeInner::Vector { size, scalar } => {
                let vec_size = vector_size_to_usize(*size);
                self.out.append("vec");
                push_decimal(&mut self.out, vec_size as u64);
                self.out.append("<");
                self.out.append(scalar_to_cpp_type(*scalar));
                self.out.append(">");
            },
            TypeInner::Matrix { columns, rows, scalar } => {
                let col_size = vector_size_to_usize(*columns);
                let row_size = vector_size_to_usize(*rows);
                self.out.append("mat");
                push_decimal(&mut self.out, col_size as u64);
                self.out.append("x");
                push_decimal(&mut self.out, row_size as u64);
                self.out.append("<");
                self.out.append(scalar_to_cpp_type(*scalar));
                self.out.append(">");
            },
            TypeInner::Array { base, size, .. } => {
                self.out.append("std::array<");
                let ghost mid = self.out@;
                let r = self.write_type(*base, types);
                if r.is_err() {
                    return r;
                }
                let ghost base_text = self.out@.subrange(mid.len() as int, self.out@.len() as int);
                self.out.append(", ");
                match size {
                    ArraySize::Constant(n) => {
                        push_decimal(&mut self.out, *n as u64);
                    },
                    ArraySize::Dynamic => {
                        return Err(Error::Unsupported(String::from_str("dynamic arrays")));
                    },
                    ArraySize::Pending(_) => {
                        return Err(Error::Unsupported(String::from_str("pending array size")));
                    },
                }
                self.out.append(">");
                proof {
                    let size_text = match size {
                        ArraySize::Constant(n) => decimal(*n as nat),
                        _ => Seq::<char>::empty(),
                    };
                    assert(self.out@ =~= start + ("std::array<"@ + base_text + ", "@ + size_text + ">"@));
                }
            },
            TypeInner::Struct { .. } => {
                match &ty.name {
                    Some(name) => {
                        self.out.append(name.as_str());
                    },
                    None => {
                        return Err(Error::Unsupported(String::from_str("anonymous structs")));
                    },
                }
            },
            TypeInner::Pointer { base, .. } => {
                let r = self.write_type(*base, types);
                if r.is_err() {
                    return r;
                }
                self.out.append("*");
            },
            TypeInner::Atomic { debug }
            | TypeInner::ValuePointer { debug }
            | TypeInner::Image { debug }
            | TypeInner::Sampler { debug }
            | TypeInner::AccelerationStructure { debug }
            | TypeInner::RayQuery { debug }
            | TypeInner::BindingArray { debug } => {
                let mut message = String::from_str("type ");
                message.append(debug.as_str());
                return Err(Error::Unsupported(message));
            },
        }
        proof {
            assert(self.out@ =~= start + type_text(types@, ty_handle as int)->Ok_0);
        }
        Ok(())
    }
}

} // verus!
