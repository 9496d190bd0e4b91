use let_lang::ast::Parameter;
use let_lang::bytecode::{BitFunction, FunctionRef, Instruction};
use let_lang::compiler::{
    compile, compile_block, compile_op, is_reserved_package, module_name, FuncContext, ModuleContext,
};
use let_lang::error::ErrorKind;
use let_lang::interpreter::RunFunction;
use let_lang::ir::{Ir, IrFunction, IrModule};
use let_lang::shapes::{shape_float, shape_function, shape_list, shape_string, shape_unit, Shape};
use let_lang::support::NameMap;

fn load(name: &str) -> Ir {
    Ir::LoadValue { local: String::from(name) }
}

fn store(name: &str) -> Ir {
    Ir::StoreValue { local: String::from(name) }
}

fn free(name: &str) -> Ir {
    Ir::FreeLocal { local: String::from(name) }
}

fn text(value: &str) -> Ir {
    Ir::LoadConstString { value: String::from(value) }
}

fn number(value: f64) -> Ir {
    Ir::LoadConstFloat { value: value.to_bits() }
}

fn reference(name: &str, shape: Shape) -> FunctionRef {
    FunctionRef {
        package: String::from("p"),
        module: String::from("m"),
        name: String::from(name),
        shape,
    }
}

fn param(id: &str) -> Parameter {
    Parameter { id: String::from(id), shape: shape_float() }
}

fn emit(args: &Vec<Parameter>, body: &Vec<Ir>) -> (Vec<Instruction>, ModuleContext, FuncContext) {
    let mut context = ModuleContext::new();
    let mut func = FuncContext::new(args);
    let code = compile_block(&mut context, &mut func, body).unwrap();
    (code, context, func)
}

fn ir_function(name: &str, args: Vec<Parameter>, body: Vec<Ir>) -> IrFunction {
    let shape = shape_function(args.iter().map(|p| p.shape.clone()).collect(), shape_float());
    IrFunction { func_ref: reference(name, shape.clone()), args, body, shape }
}

fn ir_module(functions: Vec<IrFunction>) -> IrModule {
    let mut table: NameMap<IrFunction> = NameMap::new();
    for f in functions {
        table.insert(f.func_ref.name.clone(), f);
    }
    IrModule { package: String::from("p"), name: String::from("m"), functions: table }
}

fn code_of<'a>(f: &'a RunFunction) -> &'a BitFunction {
    match f {
        RunFunction::BitFunction(code) => code,
        RunFunction::NativeFunction(_) => panic!("a compiled function is native"),
    }
}

#[test]
fn plain_operations_are_emitted_one_for_one() {
    let body = vec![
        Ir::NoOp,
        Ir::Duplicate,
        Ir::Pop,
        Ir::Swap,
        Ir::LoadConstNull,
        Ir::LoadConstTrue,
        Ir::LoadConstFalse,
        number(2.5),
        Ir::CallDynamic { param_count: 3 },
        Ir::BuildRecursiveFunction,
        Ir::Debug,
        Ir::Error,
        Ir::Return,
    ];
    let (code, context, func) = emit(&vec![], &body);
    let wanted = vec![
        Instruction::NoOp,
        Instruction::Duplicate,
        Instruction::Pop,
        Instruction::Swap,
        Instruction::LoadConstNull,
        Instruction::LoadConstTrue,
        Instruction::LoadConstFalse,
        Instruction::LoadConstFloat { value: 2.5f64.to_bits() },
        Instruction::CallDynamic { param_count: 3 },
        Instruction::BuildRecursiveFunction,
        Instruction::Debug,
        Instruction::Error,
        Instruction::Return,
    ];
    assert_eq!(code, wanted);
    assert!(context.string_constants.is_empty());
    assert!(context.function_refs.is_empty());
    assert_eq!(func.max_locals, 0);
}

#[test]
fn strings_are_interned_once() {
    let (code, context, _) = emit(&vec![], &vec![text("a"), text("b"), text("a"), text("")]);
    let wanted = vec![
        Instruction::LoadConstString { const_id: 0 },
        Instruction::LoadConstString { const_id: 1 },
        Instruction::LoadConstString { const_id: 0 },
        Instruction::LoadConstString { const_id: 2 },
    ];
    assert_eq!(code, wanted);
    assert_eq!(context.string_constants, vec!["a", "b", ""]);
}

#[test]
fn functions_are_interned_by_package_module_and_name() {
    let f = reference("f", shape_function(vec![shape_float()], shape_float()));
    let f_again = reference("f", shape_unit());
    let g = reference("g", shape_function(vec![], shape_float()));
    let body = vec![
        Ir::CallStatic { func: f.clone() },
        Ir::LoadConstFunction { value: g.clone() },
        Ir::BuildClosure { param_count: 2, func: f_again },
        Ir::CallStatic { func: g },
    ];
    let (code, context, _) = emit(&vec![], &body);
    let wanted = vec![
        Instruction::CallStatic { func_id: 0 },
        Instruction::LoadConstFunction { const_id: 1 },
        Instruction::BuildClosure { param_count: 2, func_id: 0 },
        Instruction::CallStatic { func_id: 1 },
    ];
    assert_eq!(code, wanted);
    assert_eq!(context.function_refs.len(), 2);
    assert_eq!(context.function_refs[0].shape, f.shape);
    assert_eq!(context.function_refs[1].name, "g");
}

#[test]
fn shapes_are_interned_structurally() {
    let mut context = ModuleContext::new();
    assert_eq!(context.lookup_shape(&shape_float()).unwrap(), 0);
    assert_eq!(context.lookup_shape(&shape_list(shape_float())).unwrap(), 1);
    assert_eq!(context.lookup_shape(&shape_float()).unwrap(), 0);
    assert_eq!(context.lookup_shape(&shape_list(shape_float())).unwrap(), 1);
    assert_eq!(context.lookup_shape(&shape_list(shape_string())).unwrap(), 2);
    assert_eq!(context.shape_refs.len(), 3);
    let mut names = vec![String::from("x")];
    assert_eq!(ModuleContext::lookup(&mut names, &String::from("y")), 1);
    assert_eq!(ModuleContext::lookup(&mut names, &String::from("x")), 0);
    assert_eq!(names, vec!["x", "y"]);
}

#[test]
fn arguments_have_the_first_slots_and_new_names_the_next() {
    let args = vec![param("a"), param("b")];
    let (code, _, func) = emit(&args, &vec![load("b"), store("t"), load("a"), store("u"), load("t")]);
    let wanted = vec![
        Instruction::LoadValue { local: 1 },
        Instruction::StoreValue { local: 2 },
        Instruction::LoadValue { local: 0 },
        Instruction::StoreValue { local: 3 },
        Instruction::LoadValue { local: 2 },
    ];
    assert_eq!(code, wanted);
    assert_eq!(func.max_locals, 4);
}

#[test]
fn a_freed_slot_goes_to_the_next_new_name_last_freed_first() {
    let args = vec![param("a"), param("b")];
    let body = vec![load("a"), free("a"), load("b"), free("b"), store("t"), store("u"), store("v")];
    let (code, _, func) = emit(&args, &body);
    let wanted = vec![
        Instruction::LoadValue { local: 0 },
        Instruction::LoadValue { local: 1 },
        Instruction::StoreValue { local: 1 },
        Instruction::StoreValue { local: 0 },
        Instruction::StoreValue { local: 2 },
    ];
    assert_eq!(code, wanted);
    assert_eq!(func.max_locals, 3);
    assert!(func.free_slots.is_empty());
}

#[test]
fn the_allocator_hands_out_slots_as_described() {
    let mut func = FuncContext::new(&vec![param("a")]);
    assert_eq!(func.max_locals, 1);
    assert_eq!(func.lookup_local(&String::from("a")).unwrap(), 0);
    assert_eq!(func.lookup_local(&String::from("x")).unwrap(), 1);
    assert_eq!(func.lookup_local(&String::from("x")).unwrap(), 1);
    func.free(&String::from("x")).unwrap();
    assert_eq!(func.free_slots, vec![1]);
    assert_eq!(func.lookup_local(&String::from("y")).unwrap(), 1);
    assert_eq!(func.max_locals, 2);
    func.free(&String::from("fresh")).unwrap();
    assert_eq!(func.max_locals, 3);
    assert_eq!(func.free_slots, vec![2]);
}

#[test]
fn slots_run_out_at_the_largest_slot_number() {
    let args: Vec<Parameter> = (0..65535).map(|i| param(&format!("a{}", i))).collect();
    let mut func = FuncContext::new(&args);
    assert_eq!(func.max_locals, 65535);
    assert_eq!(func.lookup_local(&String::from("a65534")).unwrap(), 65534);
    let error = func.lookup_local(&String::from("one_more")).unwrap_err();
    assert_eq!(error.kind, ErrorKind::TooManyLocals);
    let mut context = ModuleContext::new();
    let failed = compile_op(&mut context, &mut func, &store("another"));
    assert_eq!(failed.unwrap_err().kind, ErrorKind::TooManyLocals);
}

#[test]
fn a_branch_jumps_over_its_then_arm_which_jumps_over_the_else_arm() {
    let body = vec![
        Ir::LoadConstTrue,
        Ir::Branch { then_block: vec![number(1.0), Ir::Pop], else_block: vec![number(2.0)] },
        Ir::Return,
    ];
    let (code, _, _) = emit(&vec![], &body);
    let wanted = vec![
        Instruction::LoadConstTrue,
        Instruction::Branch { jump: 3 },
        Instruction::LoadConstFloat { value: 1.0f64.to_bits() },
        Instruction::Pop,
        Instruction::Jump { jump: 1 },
        Instruction::LoadConstFloat { value: 2.0f64.to_bits() },
        Instruction::Return,
    ];
    assert_eq!(code, wanted);
}

#[test]
fn a_then_arm_that_ends_with_a_return_gets_no_jump() {
    let body = vec![Ir::Branch {
        then_block: vec![number(1.0), Ir::Return],
        else_block: vec![number(2.0), Ir::Return],
    }];
    let (code, _, _) = emit(&vec![], &body);
    let wanted = vec![
        Instruction::Branch { jump: 2 },
        Instruction::LoadConstFloat { value: 1.0f64.to_bits() },
        Instruction::Return,
        Instruction::LoadConstFloat { value: 2.0f64.to_bits() },
        Instruction::Return,
    ];
    assert_eq!(code, wanted);
}

#[test]
fn empty_arms_still_get_their_jump() {
    let body = vec![Ir::Branch { then_block: vec![], else_block: vec![] }, Ir::Return];
    let (code, _, _) = emit(&vec![], &body);
    let wanted = vec![Instruction::Branch { jump: 1 }, Instruction::Jump { jump: 0 }, Instruction::Return];
    assert_eq!(code, wanted);
}

#[test]
fn nested_branches_measure_their_arms_as_emitted() {
    let inner = Ir::Branch { then_block: vec![Ir::Pop], else_block: vec![Ir::Swap, Ir::Swap] };
    let body = vec![Ir::Branch { then_block: vec![inner], else_block: vec![Ir::NoOp] }];
    let (code, _, _) = emit(&vec![], &body);
    let wanted = vec![
        Instruction::Branch { jump: 6 },
        Instruction::Branch { jump: 2 },
        Instruction::Pop,
        Instruction::Jump { jump: 2 },
        Instruction::Swap,
        Instruction::Swap,
        Instruction::Jump { jump: 1 },
        Instruction::NoOp,
    ];
    assert_eq!(code, wanted);
}

#[test]
fn compile_optimizes_emits_and_names_every_function() {
    let first = ir_function(
        "first",
        vec![param("a")],
        vec![text("s"), Ir::Pop, load("a"), store("t"), load("t"), Ir::Return],
    );
    let second = ir_function(
        "second",
        vec![],
        vec![
            text("s"),
            Ir::Pop,
            Ir::LoadConstTrue,
            Ir::Branch { then_block: vec![number(1.0)], else_block: vec![number(2.0)] },
            Ir::Return,
        ],
    );
    let module = compile(ir_module(vec![first, second])).unwrap();
    assert_eq!(module.functions.names, vec!["first", "second"]);
    assert_eq!(module.string_constants, vec!["s"]);
    let one = code_of(&module.functions.values[0]);
    assert_eq!(one.func_ref.pretty(), "p::m.first");
    assert_eq!(one.func_ref.shape, shape_function(vec![shape_float()], shape_float()));
    assert_eq!(
        one.body,
        vec![
            Instruction::LoadConstString { const_id: 0 },
            Instruction::Pop,
            Instruction::LoadValue { local: 0 },
            Instruction::Return,
        ]
    );
    assert_eq!(one.max_locals, 1);
    assert!(one.source.is_empty());
    let two = code_of(&module.functions.values[1]);
    assert_eq!(
        two.body,
        vec![
            Instruction::LoadConstString { const_id: 0 },
            Instruction::Pop,
            Instruction::LoadConstTrue,
            Instruction::Branch { jump: 2 },
            Instruction::LoadConstFloat { value: 1.0f64.to_bits() },
            Instruction::Return,
            Instruction::LoadConstFloat { value: 2.0f64.to_bits() },
            Instruction::Return,
        ]
    );
    assert_eq!(two.max_locals, 0);
}

#[test]
fn compiled_code_names_no_slot_beyond_its_locals() {
    let body = vec![
        load("a"),
        store("t"),
        load("b"),
        store("u"),
        load("t"),
        load("u"),
        Ir::Branch { then_block: vec![store("v"), load("v")], else_block: vec![load("w")] },
        Ir::Return,
    ];
    let module = compile(ir_module(vec![ir_function("f", vec![param("a"), param("b")], body)])).unwrap();
    let f = code_of(&module.functions.values[0]);
    let mut highest = 0u16;
    for instr in &f.body {
        match instr {
            Instruction::LoadValue { local } | Instruction::StoreValue { local } => {
                assert!(*local < f.max_locals);
                highest = highest.max(*local);
            }
            _ => {}
        }
    }
    assert_eq!(f.max_locals, highest + 1);
}

#[test]
fn compiled_tables_hold_nothing_twice() {
    let f = reference("f", shape_function(vec![], shape_float()));
    let body = vec![
        text("x"),
        text("y"),
        text("x"),
        Ir::CallStatic { func: f.clone() },
        Ir::LoadConstFunction { value: f },
        Ir::Return,
    ];
    let module = compile(ir_module(vec![
        ir_function("a", vec![], body.clone()),
        ir_function("b", vec![], body),
    ]))
    .unwrap();
    assert_eq!(module.string_constants, vec!["x", "y"]);
    assert_eq!(module.function_refs.len(), 1);
    assert!(module.shape_refs.is_empty());
}

#[test]
fn a_function_with_more_first_locals_than_slots_is_rejected() {
    let args: Vec<Parameter> = (0..65536).map(|i| param(&format!("a{}", i))).collect();
    let error = compile(ir_module(vec![ir_function("wide", args, vec![Ir::Return])])).unwrap_err();
    assert_eq!(error.kind, ErrorKind::TooManyLocals);
    assert!(error.loc.is_none());
}

#[test]
fn an_empty_module_compiles_to_an_empty_module() {
    let module = compile(ir_module(vec![])).unwrap();
    assert_eq!(module.functions.len(), 0);
    assert!(module.string_constants.is_empty());
    assert!(module.function_refs.is_empty());
    assert!(module.shape_refs.is_empty());
}

#[test]
fn a_source_file_defines_the_module_that_its_path_spells() {
    assert_eq!(module_name("a/b/c.let"), Some(String::from("a.b.c")));
    assert_eq!(module_name("basic.let"), Some(String::from("basic")));
    assert_eq!(module_name("a\\b.let"), Some(String::from("a.b")));
    assert_eq!(module_name(".let"), Some(String::new()));
    assert_eq!(module_name("dir.let/x.let"), Some(String::from("dir.let.x")));
    assert_eq!(module_name("übung/größe.let"), Some(String::from("übung.größe")));
    assert_eq!(module_name("a/b/c.txt"), None);
    assert_eq!(module_name("let"), None);
    assert_eq!(module_name(""), None);
}

#[test]
fn the_package_of_the_built_in_functions_is_reserved() {
    assert!(is_reserved_package("Core"));
    assert!(!is_reserved_package("core"));
    assert!(!is_reserved_package("Core "));
    assert!(!is_reserved_package(""));
}

#[test]
fn compiled_code_is_written_with_its_constants_spelled_out() {
    let callee = reference("callee", shape_function(vec![], shape_float()));
    let body = vec![
        text("hi"),
        Ir::Pop,
        number(2.0),
        load("a"),
        store("t"),
        Ir::LoadConstTrue,
        Ir::Branch { then_block: vec![Ir::CallStatic { func: callee.clone() }], else_block: vec![Ir::Error] },
        Ir::BuildClosure { param_count: 2, func: callee },
        Ir::CallDynamic { param_count: 1 },
        Ir::Return,
    ];
    let mut context = ModuleContext::new();
    let mut func = FuncContext::new(&vec![param("a")]);
    let code = compile_block(&mut context, &mut func, &body).unwrap();
    let module = let_lang::bytecode::BitModule {
        string_constants: context.string_constants,
        function_refs: context.function_refs,
        functions: NameMap::new(),
        shape_refs: context.shape_refs,
    };
    let wanted = [
        "  0: LoadConstString('hi')",
        "  1: Pop",
        "  2: LoadConstFloat(4611686018427387904)",
        "  3: LoadValue(0)",
        "  4: StoreValue(1)",
        "  5: LoadConstTrue",
        "  6: Branch(2)",
        "  7: CallStatic('p::m.callee')",
        "  8: Jump(1)",
        "  9: Error",
        "  10: BuildClosure(2, 'p::m.callee')",
        "  11: CallDynamic(1)",
        "  12: Return",
        "",
    ]
    .join("\n");
    assert_eq!(Instruction::pretty_print(&module, &code).unwrap(), wanted);
    assert_eq!(Instruction::Jump { jump: -12 }.pretty(&module).unwrap(), "Jump(-12)");
    assert_eq!(Instruction::Branch { jump: i32::MIN }.pretty(&module).unwrap(), "Branch(-2147483648)");
    assert_eq!(Instruction::Debug.pretty(&module).unwrap(), "Debug");
    let missing = Instruction::LoadConstString { const_id: 5 }.pretty(&module).unwrap_err();
    assert_eq!(missing.kind, ErrorKind::BadIndex);
    let broken = vec![Instruction::NoOp, Instruction::CallStatic { func_id: 9 }];
    assert_eq!(Instruction::pretty_print(&module, &broken).unwrap_err().kind, ErrorKind::BadIndex);
}

#[test]
fn a_compiled_module_is_written_function_by_function() {
    let module = compile(ir_module(vec![
        ir_function("first", vec![param("a")], vec![load("a"), Ir::Return]),
        ir_function("second", vec![], vec![number(0.0), Ir::Return]),
    ]))
    .unwrap();
    let wanted = [
        "p::m.first: { Float -> Float }",
        "  0: LoadValue(0)",
        "  1: Return",
        "",
        "p::m.second: {  -> Float }",
        "  0: LoadConstFloat(0)",
        "  1: Return",
        "",
        "",
    ]
    .join("\n");
    assert_eq!(module.debug().unwrap(), wanted);
    let first = code_of(&module.functions.values[0]);
    assert_eq!(first.debug(&module).unwrap(), "p::m.first: { Float -> Float }\n  0: LoadValue(0)\n  1: Return\n\n");
    let core = let_lang::lib_core::core_runtime();
    let list = core.modules.get(&String::from("List")).unwrap().debug().unwrap();
    assert!(list.starts_with("Core::List.new: {  -> List[Float] }\n  <native code>\n"));
}

#[test]
fn the_intermediate_representation_is_written_with_its_arms_indented() {
    let callee = reference("callee", shape_function(vec![], shape_float()));
    let body = vec![
        load("a"),
        Ir::LoadConstFunction { value: callee.clone() },
        Ir::Branch {
            then_block: vec![text("x"), Ir::Branch { then_block: vec![Ir::Pop], else_block: vec![] }],
            else_block: vec![free("a"), Ir::BuildClosure { param_count: 1, func: callee.clone() }],
        },
        Ir::CallStatic { func: callee },
        Ir::Return,
    ];
    let wanted = [
        "    0: LoadValue(a)",
        "    1: LoadConstFunction(p::m.callee)",
        "    2: Branch",
        "      then_block:",
        "        0: LoadConstString('x')",
        "        1: Branch",
        "          then_block:",
        "            0: Pop",
        "          else_block:",
        "",
        "      else_block:",
        "        0: FreeLocal(a)",
        "        1: BuildClosure(1, 'p::m.callee')",
        "",
        "    3: CallStatic(p::m.callee)",
        "    4: Return",
        "",
    ]
    .join("\n");
    assert_eq!(Ir::pretty_print(&body, "    "), wanted);
    let f = ir_function("f", vec![param("a"), param("b")], vec![store("t"), Ir::Return]);
    let text_of_f = "  f(a: Float, b: Float): Float\n    0: StoreValue(t)\n    1: Return\n\n";
    assert_eq!(f.pretty_print(), text_of_f);
    assert_eq!(f.debug(), text_of_f);
    let module = ir_module(vec![f, ir_function("g", vec![], vec![Ir::Return])]);
    let text_of_module = format!("p::m \n{}  g(): Float\n    0: Return\n\n", text_of_f);
    assert_eq!(module.debug(), text_of_module);
}
