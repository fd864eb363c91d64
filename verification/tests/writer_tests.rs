use naga_cpp::ir::{
    AddressSpace, ArraySize, BinaryOperator, Constant, EntryPoint, Expression, Function,
    FunctionArgument, FunctionInfo, FunctionResult, GlobalVariable, Literal, LocalVariable,
    MathFunction, Module, ModuleInfo, NameKey, NameTable, Scalar, ScalarKind, ShaderStage,
    Statement, StructMember, Type, TypeInner, TypeResolution, UnaryOperator, VectorSize,
};
use naga_cpp::writer::Writer;
use naga_cpp::{write_string, Error, Options};

const HEADER: &str = "#include \"wgsl_runtime.hpp\"\n\n";

fn f32_scalar() -> Scalar {
    Scalar { kind: ScalarKind::Float, width: 4 }
}

fn i32_scalar() -> Scalar {
    Scalar { kind: ScalarKind::Sint, width: 4 }
}

fn ty(inner: TypeInner) -> Type {
    Type { name: None, inner }
}

fn names(entries: Vec<(NameKey, &str)>) -> NameTable {
    NameTable { entries: entries.into_iter().map(|(k, v)| (k, v.to_string())).collect() }
}

fn function(expressions: Vec<Expression>, body: Vec<Statement>) -> Function {
    Function {
        arguments: Vec::new(),
        result: None,
        local_variables: Vec::new(),
        expressions,
        named_expressions: Vec::new(),
        body,
    }
}

fn compute(function: Function) -> EntryPoint {
    EntryPoint { stage: ShaderStage::Compute, function }
}

fn module(types: Vec<Type>, entry_points: Vec<EntryPoint>, names: NameTable) -> Module {
    Module {
        types,
        constants: Vec::new(),
        global_variables: Vec::new(),
        global_expressions: Vec::new(),
        functions: Vec::new(),
        entry_points,
        names,
    }
}

fn resolutions(n: usize) -> FunctionInfo {
    FunctionInfo { expressions: vec![TypeResolution::Handle(0); n] }
}

/// Validation info with an entry for every function and entry point.
fn info_for(m: &Module) -> ModuleInfo {
    ModuleInfo {
        functions: m.functions.iter().map(|f| resolutions(f.expressions.len())).collect(),
        entry_points: m.entry_points.iter().map(|e| resolutions(e.function.expressions.len())).collect(),
        const_expression_types: vec![TypeResolution::Handle(0); m.global_expressions.len()],
    }
}

fn write(m: &Module) -> Result<String, Error> {
    write_string(m, &info_for(m), &Options::default())
}

fn unsupported(result: Result<String, Error>) -> String {
    match result {
        Err(Error::Unsupported(message)) => message,
        other => panic!("expected an unsupported feature, got {:?}", other),
    }
}

/// `add(a, b) -> i32`, returning `a + b`.
fn add_function() -> Function {
    Function {
        arguments: vec![FunctionArgument { ty: 0 }, FunctionArgument { ty: 0 }],
        result: Some(FunctionResult { ty: 0 }),
        local_variables: Vec::new(),
        expressions: vec![
            Expression::FunctionArgument(0),
            Expression::FunctionArgument(1),
            Expression::Binary { op: BinaryOperator::Add, left: 0, right: 1 },
        ],
        named_expressions: Vec::new(),
        body: vec![Statement::Return { value: Some(2) }],
    }
}

const ADD_TEXT: &str = "int32_t add(int32_t a, int32_t b) {\n    return (a + b);\n}\n\n";

fn add_names(extra: Vec<(NameKey, &str)>) -> NameTable {
    let mut entries = vec![
        (NameKey::Function(0), "add"),
        (NameKey::FunctionArgument(0, 0), "a"),
        (NameKey::FunctionArgument(0, 1), "b"),
        (NameKey::EntryPoint(0), "main"),
    ];
    entries.extend(extra);
    names(entries)
}

/// A module with `add` and an entry point `main` that has one local `x`.
fn calling_module(
    expressions: Vec<Expression>,
    named_expressions: Vec<(usize, String)>,
    body: Vec<Statement>,
) -> Module {
    let mut main = function(expressions, body);
    main.local_variables = vec![LocalVariable { ty: 0, init: None }];
    main.named_expressions = named_expressions;
    let mut m = module(
        vec![ty(TypeInner::Scalar(i32_scalar()))],
        vec![compute(main)],
        add_names(vec![(NameKey::EntryPointLocal(0, 0), "x")]),
    );
    m.functions = vec![add_function()];
    m
}

fn call_expressions() -> Vec<Expression> {
    vec![
        Expression::Literal(Literal::I32(1)),
        Expression::Literal(Literal::I32(2)),
        Expression::CallResult(0),
        Expression::CallResult(0),
        Expression::LocalVariable(0),
    ]
}

/// A module whose global variable `g` (of type 0) is initialized by the
/// last of `expressions`.
fn initialized_global(types: Vec<Type>, expressions: Vec<Expression>) -> Module {
    let last = expressions.len() - 1;
    let mut m = module(types, Vec::new(), names(vec![(NameKey::GlobalVariable(0), "g")]));
    m.global_expressions = expressions;
    m.global_variables = vec![GlobalVariable { space: AddressSpace::Private, ty: 0, init: Some(last) }];
    m
}

#[test]
fn readme_compute_main_with_return() {
    let m = module(
        Vec::new(),
        vec![compute(function(Vec::new(), vec![Statement::Return { value: None }]))],
        names(vec![(NameKey::EntryPoint(0), "compute_main")]),
    );
    let out = write(&m).unwrap();
    assert_eq!(out, "#include \"wgsl_runtime.hpp\"\n\nvoid compute_main() {\n    return;\n}\n\n");
}

#[test]
fn basic_compute_shader_is_a_void_function() {
    let m = module(
        Vec::new(),
        vec![compute(function(Vec::new(), Vec::new()))],
        names(vec![(NameKey::EntryPoint(0), "main")]),
    );
    let out = write(&m).unwrap();
    assert!(out.contains("#include"));
    assert!(out.contains("void main"));
    assert_eq!(out, format!("{}void main() {{\n}}\n\n", HEADER));
}

#[test]
fn compute_with_return_writes_return() {
    let m = module(
        Vec::new(),
        vec![compute(function(Vec::new(), vec![Statement::Return { value: None }]))],
        names(vec![(NameKey::EntryPoint(0), "main")]),
    );
    let out = write(&m).unwrap();
    assert!(out.starts_with(HEADER));
    assert!(out.contains("void main() {\n"));
    assert!(out.contains("return"));
}

#[test]
fn empty_module_is_only_the_header() {
    let m = module(Vec::new(), Vec::new(), names(Vec::new()));
    assert_eq!(write(&m).unwrap(), HEADER);
}

#[test]
fn vertex_entry_point_is_refused() {
    let m = module(
        Vec::new(),
        vec![EntryPoint { stage: ShaderStage::Vertex, function: function(Vec::new(), Vec::new()) }],
        names(Vec::new()),
    );
    assert!(matches!(write(&m), Err(Error::InvalidStage(ShaderStage::Vertex))));
}

#[test]
fn fragment_entry_point_after_compute_is_refused() {
    let m = module(
        Vec::new(),
        vec![
            compute(function(Vec::new(), Vec::new())),
            EntryPoint { stage: ShaderStage::Fragment, function: function(Vec::new(), Vec::new()) },
        ],
        names(vec![(NameKey::EntryPoint(0), "main")]),
    );
    assert!(matches!(write(&m), Err(Error::InvalidStage(ShaderStage::Fragment))));
}

#[test]
fn every_compute_entry_point_appears() {
    let m = module(
        Vec::new(),
        vec![compute(function(Vec::new(), Vec::new())), compute(function(Vec::new(), Vec::new()))],
        names(vec![(NameKey::EntryPoint(0), "first"), (NameKey::EntryPoint(1), "second")]),
    );
    let out = write(&m).unwrap();
    assert_eq!(out, format!("{}void first() {{\n}}\n\nvoid second() {{\n}}\n\n", HEADER));
}

#[test]
fn named_struct_is_defined() {
    let m = module(
        vec![
            ty(TypeInner::Scalar(f32_scalar())),
            Type {
                name: Some("Particle".to_string()),
                inner: TypeInner::Struct {
                    members: vec![
                        StructMember { name: Some("mass".to_string()), ty: 0 },
                        StructMember { name: None, ty: 0 },
                    ],
                    span: 8,
                },
            },
            Type { name: Some("Real".to_string()), inner: TypeInner::Scalar(f32_scalar()) },
        ],
        Vec::new(),
        names(Vec::new()),
    );
    let out = write(&m).unwrap();
    assert_eq!(out, format!("{}struct Particle {{\n    float mass;\n    float _field;\n}};\n\n", HEADER));
}

#[test]
fn constants_are_followed_by_an_empty_line() {
    let mut m = module(
        vec![ty(TypeInner::Scalar(i32_scalar()))],
        Vec::new(),
        names(vec![(NameKey::Constant(0), "LIMIT")]),
    );
    m.global_expressions = vec![Expression::Literal(Literal::I32(-7))];
    m.constants = vec![Constant { ty: 0, init: 0 }];
    assert_eq!(write(&m).unwrap(), format!("{}constexpr int32_t LIMIT = -7;\n\n", HEADER));
}

#[test]
fn global_variables_in_memory_spaces_are_declared() {
    let mut m = module(
        vec![
            ty(TypeInner::Vector { size: VectorSize::Tri, scalar: f32_scalar() }),
            ty(TypeInner::Scalar(Scalar { kind: ScalarKind::Uint, width: 4 })),
            ty(TypeInner::Scalar(f32_scalar())),
        ],
        Vec::new(),
        names(vec![(NameKey::GlobalVariable(0), "pos"), (NameKey::GlobalVariable(2), "counter")]),
    );
    m.global_expressions = vec![Expression::Literal(Literal::U32(5))];
    m.global_variables = vec![
        GlobalVariable { space: AddressSpace::Private, ty: 0, init: None },
        GlobalVariable { space: AddressSpace::WorkGroup, ty: 2, init: None },
        GlobalVariable { space: AddressSpace::Storage, ty: 1, init: Some(0) },
    ];
    assert_eq!(write(&m).unwrap(), format!("{}vec3<float> pos;\nuint32_t counter = 5u;\n", HEADER));
}

#[test]
fn function_with_parameters() {
    let mut m = module(vec![ty(TypeInner::Scalar(i32_scalar()))], Vec::new(), add_names(Vec::new()));
    m.functions = vec![add_function()];
    assert_eq!(write(&m).unwrap(), format!("{}{}", HEADER, ADD_TEXT));
}

#[test]
fn call_results_get_numbered_names() {
    let m = calling_module(
        call_expressions(),
        Vec::new(),
        vec![
            Statement::Call { function: 0, arguments: vec![0, 1], result: Some(2) },
            Statement::Call { function: 0, arguments: vec![1, 0], result: Some(3) },
            Statement::Store { pointer: 4, value: 3 },
            Statement::Return { value: None },
        ],
    );
    let expected = format!(
        "{}{}void main() {{\n    int32_t x;\n\n    int32_t add_0 = add(1, 2);\n    int32_t add_1 = add(2, 1);\n    x = add_1;\n    return;\n}}\n\n",
        HEADER, ADD_TEXT
    );
    assert_eq!(write(&m).unwrap(), expected);
}

#[test]
fn call_result_keeps_its_source_name() {
    let m = calling_module(
        call_expressions(),
        vec![(2, "sum".to_string())],
        vec![
            Statement::Call { function: 0, arguments: vec![0, 1], result: Some(2) },
            Statement::Store { pointer: 4, value: 2 },
            Statement::Store { pointer: 4, value: 2 },
        ],
    );
    let expected = format!(
        "{}{}void main() {{\n    int32_t x;\n\n    int32_t sum = add(1, 2);\n    x = sum;\n    x = sum;\n}}\n\n",
        HEADER, ADD_TEXT
    );
    assert_eq!(write(&m).unwrap(), expected);
}

#[test]
fn call_result_before_its_call_is_refused() {
    let m = calling_module(call_expressions(), Vec::new(), vec![Statement::Store { pointer: 4, value: 2 }]);
    assert_eq!(unsupported(write(&m)), "call result used before call statement");
}

#[test]
fn call_without_result_is_a_statement() {
    let m = calling_module(
        call_expressions(),
        Vec::new(),
        vec![Statement::Call { function: 0, arguments: vec![1, 1], result: None }],
    );
    let expected = format!("{}{}void main() {{\n    int32_t x;\n\n    add(2, 2);\n}}\n\n", HEADER, ADD_TEXT);
    assert_eq!(write(&m).unwrap(), expected);
}

#[test]
fn call_with_result_from_void_function_is_refused() {
    let mut m = calling_module(
        call_expressions(),
        Vec::new(),
        vec![Statement::Call { function: 0, arguments: vec![0, 1], result: Some(2) }],
    );
    m.functions[0].result = None;
    m.functions[0].body = Vec::new();
    assert_eq!(unsupported(write(&m)), "call with result from void function");
}

#[test]
fn local_variable_with_initializer_and_entry_point_argument() {
    let mut main = function(
        vec![
            Expression::Literal(Literal::I32(3)),
            Expression::LocalVariable(0),
            Expression::FunctionArgument(0),
        ],
        vec![Statement::Store { pointer: 1, value: 2 }],
    );
    main.local_variables = vec![LocalVariable { ty: 0, init: Some(0) }];
    let m = module(
        vec![ty(TypeInner::Scalar(i32_scalar()))],
        vec![compute(main)],
        names(vec![
            (NameKey::EntryPoint(0), "main"),
            (NameKey::EntryPointLocal(0, 0), "x"),
            (NameKey::EntryPointArgument(0, 0), "idx"),
        ]),
    );
    assert_eq!(write(&m).unwrap(), format!("{}void main() {{\n    int32_t x = 3;\n\n    x = idx;\n}}\n\n", HEADER));
}

#[test]
fn control_flow_statements() {
    let body = vec![
        Statement::Emit,
        Statement::Block(vec![Statement::Break]),
        Statement::If { condition: 0, accept: vec![Statement::Continue], reject: vec![Statement::Other] },
        Statement::If { condition: 0, accept: vec![Statement::Break], reject: Vec::new() },
        Statement::Loop { body: vec![Statement::Break], continuing: vec![Statement::Other], break_if: Some(0) },
        Statement::Loop { body: Vec::new(), continuing: Vec::new(), break_if: None },
        Statement::Other,
    ];
    let m = module(
        Vec::new(),
        vec![compute(function(vec![Expression::Literal(Literal::Bool(true))], body))],
        names(vec![(NameKey::EntryPoint(0), "main")]),
    );
    let expected = [
        "void main() {\n",
        "    {\n",
        "        break;\n",
        "    }\n",
        "    if (true) {\n",
        "        continue;\n",
        "    } else {\n",
        "        // Unsupported statement\n",
        "    }\n",
        "    if (true) {\n",
        "        break;\n",
        "    }\n",
        "    while (true) {\n",
        "        break;\n",
        "        // Unsupported statement\n",
        "        if (true) {\n",
        "            break;\n",
        "        }\n",
        "    }\n",
        "    while (true) {\n",
        "    }\n",
        "    // Unsupported statement\n",
        "}\n\n",
    ]
    .concat();
    assert_eq!(write(&m).unwrap(), format!("{}{}", HEADER, expected));
}

#[test]
fn literals_are_spelled_with_suffixes() {
    let literals = vec![
        Literal::U32(5),
        Literal::I32(-3),
        Literal::I64(-9),
        Literal::U64(7),
        Literal::Bool(false),
        Literal::F32 { text: "1.5".to_string() },
        Literal::F64 { text: "2.25".to_string() },
        Literal::AbstractInt(3),
        Literal::AbstractFloat,
    ];
    let texts = ["5u", "-3", "-9L", "7UL", "false", "1.5f", "2.25", "/* abstract */", "/* abstract */"];
    let key_names: Vec<String> = (0..literals.len()).map(|i| format!("c{}", i)).collect();
    let mut m = module(
        vec![ty(TypeInner::Scalar(f32_scalar()))],
        Vec::new(),
        names(key_names.iter().enumerate().map(|(i, n)| (NameKey::Constant(i), n.as_str())).collect()),
    );
    m.constants = (0..literals.len()).map(|i| Constant { ty: 0, init: i }).collect();
    m.global_expressions = literals.into_iter().map(Expression::Literal).collect();
    let mut expected = HEADER.to_string();
    for (i, text) in texts.iter().enumerate() {
        expected.push_str(&format!("constexpr float c{} = {};\n", i, text));
    }
    expected.push('\n');
    assert_eq!(write(&m).unwrap(), expected);
}

#[test]
fn f16_literal_is_refused() {
    let m = initialized_global(vec![ty(TypeInner::Scalar(f32_scalar()))], vec![Expression::Literal(Literal::F16)]);
    assert_eq!(unsupported(write(&m)), "f16 literals");
}

fn f32_lit(text: &str) -> Expression {
    Expression::Literal(Literal::F32 { text: text.to_string() })
}

#[test]
fn module_expressions() {
    let types = vec![
        ty(TypeInner::Scalar(f32_scalar())),
        ty(TypeInner::Vector { size: VectorSize::Tri, scalar: f32_scalar() }),
    ];
    let expressions = vec![
        f32_lit("1.0"),
        f32_lit("2.0"),
        Expression::Compose { ty: 1, components: vec![0, 1, 0] },
        Expression::Splat { size: VectorSize::Quad, value: 0 },
        Expression::Literal(Literal::Bool(true)),
        Expression::Select { condition: 4, accept: 0, reject: 1 },
        Expression::Unary { op: UnaryOperator::Negate, expr: 0 },
        Expression::Binary { op: BinaryOperator::Multiply, left: 0, right: 6 },
        Expression::AccessIndex { base: 2, index: 1 },
        Expression::Math { fun: MathFunction::Abs, arg: 0 },
        Expression::Math { fun: MathFunction::Abs, arg: 2 },
        Expression::Constant(0),
        Expression::Compose { ty: 0, components: vec![1] },
        Expression::Compose { ty: 0, components: Vec::new() },
        Expression::Load { pointer: 0 },
        Expression::Literal(Literal::U32(0)),
        Expression::Access { base: 2, index: 15 },
        Expression::Other,
        Expression::GlobalVariable(0),
    ];
    let texts = [
        "1.0f",
        "2.0f",
        "vec3<float>(1.0f, 2.0f, 1.0f)",
        "vec4<float>(1.0f)",
        "true",
        "select(2.0f, 1.0f, true)",
        "-1.0f",
        "(1.0f * -1.0f)",
        "vec3<float>(1.0f, 2.0f, 1.0f)[1]",
        "std::abs(1.0f)",
        "abs(vec3<float>(1.0f, 2.0f, 1.0f))",
        "ONE",
        "2.0f",
        "0",
        "1.0f",
        "0u",
        "vec3<float>(1.0f, 2.0f, 1.0f)[0u]",
        "/* expr */",
        "g0",
    ];
    let count = expressions.len();
    let var_names: Vec<String> = (0..count).map(|i| format!("g{}", i)).collect();
    let mut entries: Vec<(NameKey, &str)> =
        var_names.iter().enumerate().map(|(i, n)| (NameKey::GlobalVariable(i), n.as_str())).collect();
    entries.push((NameKey::Constant(0), "ONE"));
    let mut m = module(types, Vec::new(), names(entries));
    m.global_expressions = expressions;
    m.constants = vec![Constant { ty: 0, init: 0 }];
    m.global_variables =
        (0..count).map(|i| GlobalVariable { space: AddressSpace::Private, ty: 0, init: Some(i) }).collect();
    let mut info = info_for(&m);
    info.const_expression_types[3] =
        TypeResolution::Value(TypeInner::Vector { size: VectorSize::Quad, scalar: f32_scalar() });
    info.const_expression_types[10] = TypeResolution::Handle(1);
    let mut expected = format!("{}constexpr float ONE = 1.0f;\n\n", HEADER);
    for (i, text) in texts.iter().enumerate() {
        expected.push_str(&format!("float g{} = {};\n", i, text));
    }
    assert_eq!(write_string(&m, &info, &Options::default()).unwrap(), expected);
}

fn matrix_type() -> Type {
    ty(TypeInner::Matrix { columns: VectorSize::Bi, rows: VectorSize::Bi, scalar: f32_scalar() })
}

#[test]
fn composite_of_matrix_is_refused() {
    let m = initialized_global(
        vec![ty(TypeInner::Scalar(f32_scalar())), matrix_type()],
        vec![Expression::Compose { ty: 1, components: Vec::new() }],
    );
    assert_eq!(unsupported(write(&m)), "composite constructors for this type");
}

#[test]
fn splat_of_scalar_type_is_refused() {
    let m = initialized_global(
        vec![ty(TypeInner::Scalar(f32_scalar()))],
        vec![f32_lit("1.0"), Expression::Splat { size: VectorSize::Bi, value: 0 }],
    );
    assert_eq!(unsupported(write(&m)), "splat for non-vector type");
}

#[test]
fn abs_of_matrix_is_refused() {
    let m = initialized_global(
        vec![matrix_type()],
        vec![f32_lit("1.0"), Expression::Math { fun: MathFunction::Abs, arg: 0 }],
    );
    assert_eq!(unsupported(write(&m)), "abs for this type");
}

#[test]
fn other_math_function_is_refused() {
    let m = initialized_global(
        vec![ty(TypeInner::Scalar(f32_scalar()))],
        vec![f32_lit("4.0"), Expression::Math { fun: MathFunction::Other { name: "Sqrt".to_string() }, arg: 0 }],
    );
    assert_eq!(unsupported(write(&m)), "math function Sqrt not supported");
}

#[test]
fn call_result_outside_functions_is_refused() {
    let m = initialized_global(vec![ty(TypeInner::Scalar(f32_scalar()))], vec![Expression::CallResult(0)]);
    assert_eq!(unsupported(write(&m)), "call result used before call statement");
}

fn global_of_type(types: Vec<Type>, ty_handle: usize) -> Module {
    let mut m = module(types, Vec::new(), names(vec![(NameKey::GlobalVariable(0), "v")]));
    m.global_variables = vec![GlobalVariable { space: AddressSpace::Private, ty: ty_handle, init: None }];
    m
}

#[test]
fn type_spellings() {
    let f64_scalar = Scalar { kind: ScalarKind::Float, width: 8 };
    let types = vec![
        ty(TypeInner::Scalar(f64_scalar)),
        ty(TypeInner::Matrix { columns: VectorSize::Quad, rows: VectorSize::Tri, scalar: f64_scalar }),
        ty(TypeInner::Array { base: 0, size: ArraySize::Constant(8), stride: 8 }),
        ty(TypeInner::Pointer { base: 0, space: AddressSpace::Function }),
        ty(TypeInner::Vector { size: VectorSize::Bi, scalar: i32_scalar() }),
        ty(TypeInner::Pointer { base: 2, space: AddressSpace::Function }),
    ];
    let expected = [
        "double v;\n",
        "mat4x3<double> v;\n",
        "std::array<double, 8> v;\n",
        "double* v;\n",
        "vec2<int32_t> v;\n",
        "std::array<double, 8>* v;\n",
    ];
    for (handle, text) in expected.iter().enumerate() {
        let m = global_of_type(types.clone(), handle);
        assert_eq!(write(&m).unwrap(), format!("{}{}", HEADER, text));
    }
}

#[test]
fn unsupported_types_are_refused() {
    let base = ty(TypeInner::Scalar(f32_scalar()));
    let cases = vec![
        (ty(TypeInner::Array { base: 0, size: ArraySize::Dynamic, stride: 4 }), "dynamic arrays".to_string()),
        (ty(TypeInner::Array { base: 0, size: ArraySize::Pending(0), stride: 4 }), "pending array size".to_string()),
        (ty(TypeInner::Struct { members: Vec::new(), span: 0 }), "anonymous structs".to_string()),
        (
            ty(TypeInner::Atomic { debug: "Atomic(Scalar { kind: Sint, width: 4 })".to_string() }),
            "type Atomic(Scalar { kind: Sint, width: 4 })".to_string(),
        ),
        (ty(TypeInner::Sampler { debug: "Sampler { comparison: false }".to_string() }), "type Sampler { comparison: false }".to_string()),
    ];
    for (t, message) in cases {
        let m = global_of_type(vec![base.clone(), t], 1);
        assert_eq!(unsupported(write(&m)), message);
    }
}

#[test]
fn writer_appends_to_existing_text() {
    let m = module(
        Vec::new(),
        vec![compute(function(Vec::new(), vec![Statement::Return { value: None }]))],
        names(vec![(NameKey::EntryPoint(0), "main")]),
    );
    let info = info_for(&m);
    let mut writer = Writer::new("// generated\n".to_string(), &Options::default());
    writer.write(&m, &info).unwrap();
    let out = writer.finish();
    assert_eq!(out, format!("// generated\n{}void main() {{\n    return;\n}}\n\n", HEADER));
}

#[test]
fn writing_twice_repeats_the_text() {
    let m = calling_module(
        call_expressions(),
        Vec::new(),
        vec![
            Statement::Call { function: 0, arguments: vec![0, 1], result: Some(2) },
            Statement::Store { pointer: 4, value: 2 },
        ],
    );
    let info = info_for(&m);
    let once = write_string(&m, &info, &Options::default()).unwrap();
    let mut writer = Writer::new(String::new(), &Options::default());
    writer.write(&m, &info).unwrap();
    writer.write(&m, &info).unwrap();
    assert_eq!(writer.finish(), format!("{}{}", once, once));
    assert!(once.contains("int32_t add_0 = add(1, 2);\n    x = add_0;\n"));
}

#[test]
fn name_table_gives_the_first_entry() {
    let table = names(vec![(NameKey::Function(1), "f"), (NameKey::Function(1), "g"), (NameKey::Constant(1), "c")]);
    assert_eq!(table.get(NameKey::Function(1)), Some("f"));
    assert_eq!(table.get(NameKey::Constant(1)), Some("c"));
    assert_eq!(table.get(NameKey::Function(2)), None);
}

#[test]
fn error_views() {
    let e = Error::Unsupported("dynamic arrays".to_string());
    assert!(format!("{:?}", e).contains("dynamic arrays"));
    let s = Error::InvalidStage(ShaderStage::Mesh);
    assert!(matches!(s, Error::InvalidStage(ShaderStage::Mesh)));
    assert!(matches!(Error::Format, Error::Format));
}

#[test]
fn failed_write_keeps_earlier_text() {
    let m = module(
        Vec::new(),
        vec![EntryPoint { stage: ShaderStage::Vertex, function: function(Vec::new(), Vec::new()) }],
        names(Vec::new()),
    );
    let info = info_for(&m);
    let mut writer = Writer::new("// kept\n".to_string(), &Options::default());
    assert!(matches!(writer.write(&m, &info), Err(Error::InvalidStage(ShaderStage::Vertex))));
    let out = writer.finish();
    assert!(out.starts_with("// kept\n"));
    assert_eq!(out, format!("// kept\n{}", HEADER));
}

#[test]
fn failed_write_leaves_the_text_before_the_refusal() {
    let m = global_of_type(
        vec![
            ty(TypeInner::Scalar(Scalar { kind: ScalarKind::Uint, width: 4 })),
            ty(TypeInner::Array { base: 0, size: ArraySize::Dynamic, stride: 4 }),
        ],
        1,
    );
    let info = info_for(&m);
    let mut writer = Writer::new("// kept\n".to_string(), &Options::default());
    match writer.write(&m, &info) {
        Err(Error::Unsupported(message)) => assert_eq!(message, "dynamic arrays"),
        other => panic!("expected a refusal, got {:?}", other),
    }
    assert_eq!(writer.finish(), format!("// kept\n{}std::array<uint32_t, ", HEADER));
}

#[test]
fn refusal_inside_a_body_leaves_the_opened_function() {
    let m = module(
        Vec::new(),
        vec![compute(function(
            vec![Expression::Literal(Literal::F16)],
            vec![Statement::Return { value: Some(0) }],
        ))],
        names(vec![(NameKey::EntryPoint(0), "main")]),
    );
    let info = info_for(&m);
    let mut writer = Writer::new(String::new(), &Options::default());
    assert!(writer.write(&m, &info).is_err());
    assert_eq!(writer.finish(), format!("{}void main() {{\n    return ", HEADER));
}

#[test]
fn declared_call_result_name_is_used_in_later_nested_statements() {
    let mut expressions = call_expressions();
    expressions.push(Expression::Literal(Literal::Bool(true)));
    let m = calling_module(
        expressions,
        Vec::new(),
        vec![
            Statement::Call { function: 0, arguments: vec![0, 1], result: Some(2) },
            Statement::Block(vec![Statement::Call { function: 0, arguments: vec![1, 1], result: Some(3) }]),
            Statement::If {
                condition: 5,
                accept: vec![Statement::Store { pointer: 4, value: 2 }],
                reject: vec![Statement::Store { pointer: 4, value: 3 }],
            },
        ],
    );
    let expected = format!(
        "{}{}void main() {{\n    int32_t x;\n\n    int32_t add_0 = add(1, 2);\n    {{\n        int32_t add_1 = add(2, 2);\n    }}\n    if (true) {{\n        x = add_0;\n    }} else {{\n        x = add_1;\n    }}\n}}\n\n",
        HEADER, ADD_TEXT
    );
    assert_eq!(write(&m).unwrap(), expected);
}
