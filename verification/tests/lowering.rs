use let_lang::ast::{
    AssignmentEx, BinaryOpEx, BlockEx, CallEx, Expression, FunctionContext, FunctionDeclaration,
    FunctionDeclarationEx, IfEx, Location, Module, NumberLiteralEx, Parameter, StringLiteralEx,
    VariableEx, Visibility,
};
use let_lang::bytecode::FunctionRef;
use let_lang::error::ErrorKind;
use let_lang::ir::{Ir, IrModule};
use let_lang::lower::{compile_ir_module, IrCoreContext, IrFuncContext, IrModuleContext, ScopeLookup};
use let_lang::shapes::{shape_boolean, shape_float, shape_function, shape_unknown, Shape};
use let_lang::typechecker::check_module;

fn at() -> Location {
    Location { src: String::from("lower.let"), x: 2, y: 9 }
}

fn num(value: f64) -> Expression {
    NumberLiteralEx { shape: shape_float(), loc: at(), value: value.to_bits() }.wrap()
}

fn var(id: &str) -> Expression {
    VariableEx { shape: shape_unknown(), loc: at(), id: String::from(id) }.wrap()
}

fn bin(op: &str, left: Expression, right: Expression) -> Expression {
    BinaryOpEx { shape: shape_unknown(), loc: at(), op: String::from(op), left, right }.wrap()
}

fn call(func: Expression, args: Vec<Expression>) -> Expression {
    CallEx { shape: shape_unknown(), loc: at(), func, args }.wrap()
}

fn when(condition: Expression, then_block: Expression, else_block: Expression) -> Expression {
    IfEx { shape: shape_unknown(), loc: at(), condition, then_block, else_block }.wrap()
}

fn block(body: Vec<Expression>) -> Expression {
    BlockEx { shape: shape_unknown(), loc: at(), body }.wrap()
}

fn assign(id: &str, body: Expression) -> Expression {
    AssignmentEx { shape: shape_unknown(), loc: at(), id: String::from(id), body }.wrap()
}

fn param(id: &str, shape: Shape) -> Parameter {
    Parameter { id: String::from(id), shape }
}

fn function(id: &str, args: Vec<Parameter>, result: Shape, body: Expression) -> FunctionDeclaration {
    FunctionDeclaration {
        visibility: Visibility::Private,
        ex: FunctionDeclarationEx {
            result,
            loc: at(),
            id: String::from(id),
            args,
            body,
            context: FunctionContext::new(false, false),
        },
    }
}

fn local_function(id: &str, args: Vec<Parameter>, result: Shape, body: Expression) -> Expression {
    FunctionDeclarationEx {
        result,
        loc: at(),
        id: String::from(id),
        args,
        body,
        context: FunctionContext::new(true, false),
    }
    .wrap()
}

fn lambda(args: Vec<Parameter>, body: Expression) -> Expression {
    FunctionDeclarationEx {
        result: shape_unknown(),
        loc: at(),
        id: String::from("<anon>"),
        args,
        body,
        context: FunctionContext::new(true, true),
    }
    .wrap()
}

fn module(functions: Vec<FunctionDeclaration>) -> Module {
    Module { package: String::from("test"), name: String::from("basic"), functions }
}

fn lower(functions: Vec<FunctionDeclaration>) -> IrModule {
    let checked = check_module(module(functions)).unwrap();
    compile_ir_module(&checked).unwrap()
}

fn body<'a>(ir: &'a IrModule, name: &str) -> &'a Vec<Ir> {
    &ir.functions.get(&String::from(name)).expect("the function was lowered").body
}

fn number(value: f64) -> Ir {
    Ir::LoadConstFloat { value: value.to_bits() }
}

fn load(name: &str) -> Ir {
    Ir::LoadValue { local: String::from(name) }
}

fn store(name: &str) -> Ir {
    Ir::StoreValue { local: String::from(name) }
}

fn operator(name: &str, result: Shape) -> FunctionRef {
    FunctionRef {
        package: String::from("Core"),
        module: String::from("Core"),
        name: String::from(name),
        shape: shape_function(vec![shape_float(), shape_float()], result),
    }
}

fn own(name: &str, shape: Shape) -> FunctionRef {
    FunctionRef {
        package: String::from("test"),
        module: String::from("basic"),
        name: String::from(name),
        shape,
    }
}

fn show(code: &Vec<Ir>) -> String {
    format!("{:?}", code)
}

#[test]
fn operations_become_static_calls_of_the_core() {
    let ir = lower(vec![function(
        "main",
        vec![],
        shape_float(),
        bin("+", num(2.0), bin("*", num(3.0), num(4.0))),
    )]);
    let wanted = vec![
        number(2.0),
        number(3.0),
        number(4.0),
        Ir::CallStatic { func: operator("*", shape_float()) },
        Ir::CallStatic { func: operator("+", shape_float()) },
        Ir::Return,
    ];
    assert_eq!(show(body(&ir, "main")), show(&wanted));
    assert_eq!(ir.package, "test");
    assert_eq!(ir.name, "basic");
}

#[test]
fn literals_become_constants() {
    let text = StringLiteralEx { shape: shape_unknown(), loc: at(), value: String::from("hi") }.wrap();
    let ir = lower(vec![function(
        "main",
        vec![],
        shape_boolean(),
        block(vec![text, Expression::BooleanLiteral(at(), false), Expression::BooleanLiteral(at(), true)]),
    )]);
    let wanted = vec![
        Ir::LoadConstString { value: String::from("hi") },
        Ir::LoadConstFalse,
        Ir::LoadConstTrue,
        Ir::Return,
    ];
    assert_eq!(show(body(&ir, "main")), show(&wanted));
}

#[test]
fn a_condition_becomes_a_branch_that_holds_both_arms() {
    let ir = lower(vec![function(
        "main",
        vec![],
        shape_float(),
        when(bin("<", num(1.0), num(2.0)), block(vec![num(10.0)]), block(vec![num(20.0)])),
    )]);
    let wanted = vec![
        number(1.0),
        number(2.0),
        Ir::CallStatic { func: operator("<", shape_boolean()) },
        Ir::Branch { then_block: vec![number(10.0)], else_block: vec![number(20.0)] },
        Ir::Return,
    ];
    assert_eq!(show(body(&ir, "main")), show(&wanted));
}

#[test]
fn an_assignment_stores_and_a_variable_loads() {
    let ir = lower(vec![function(
        "main",
        vec![],
        shape_float(),
        block(vec![assign("x", num(1.0)), var("x")]),
    )]);
    let wanted = vec![number(1.0), store("x"), load("x"), Ir::Return];
    assert_eq!(show(body(&ir, "main")), show(&wanted));
}

#[test]
fn a_call_of_a_function_of_the_module_is_static() {
    let twice = function("twice", vec![param("n", shape_float())], shape_float(), bin("*", var("n"), num(2.0)));
    let main = function("main", vec![], shape_float(), call(var("twice"), vec![num(4.0)]));
    let ir = lower(vec![main, twice]);
    let twice_ref = own("twice", shape_function(vec![shape_float()], shape_float()));
    let wanted = vec![number(4.0), Ir::CallStatic { func: twice_ref }, Ir::Return];
    assert_eq!(show(body(&ir, "main")), show(&wanted));
    let callee = ir.functions.get(&String::from("twice")).unwrap();
    assert_eq!(callee.args.len(), 1);
    assert_eq!(callee.args[0].id, "n");
    assert_eq!(callee.shape, shape_function(vec![shape_float()], shape_float()));
    assert_eq!(callee.func_ref.pretty(), "test::basic.twice");
}

#[test]
fn a_function_of_the_module_used_as_a_value_is_a_constant() {
    let one = function("one", vec![], shape_float(), num(1.0));
    let pick = function("pick", vec![], shape_function(vec![], shape_float()), var("one"));
    let ir = lower(vec![one, pick]);
    let wanted = vec![
        Ir::LoadConstFunction { value: own("one", shape_function(vec![], shape_float())) },
        Ir::Return,
    ];
    assert_eq!(show(body(&ir, "pick")), show(&wanted));
}

#[test]
fn a_call_of_a_local_is_dynamic_with_the_number_of_arguments() {
    let apply = function(
        "apply",
        vec![param("f", shape_function(vec![shape_float(), shape_float()], shape_float()))],
        shape_float(),
        call(var("f"), vec![num(1.0), num(2.0)]),
    );
    let ir = lower(vec![apply]);
    let wanted = vec![
        load("f"),
        number(1.0),
        number(2.0),
        Ir::CallDynamic { param_count: 2 },
        Ir::Return,
    ];
    assert_eq!(show(body(&ir, "apply")), show(&wanted));
}

#[test]
fn a_closure_loads_what_it_captures_and_the_captures_come_first() {
    let adder = lambda(vec![param("y", shape_float())], bin("+", var("x"), var("y")));
    let make = function(
        "make",
        vec![param("x", shape_float())],
        shape_function(vec![shape_float()], shape_float()),
        adder,
    );
    let ir = lower(vec![make]);
    let anon = own("<anon>", shape_function(vec![shape_float()], shape_float()));
    let wanted = vec![load("x"), Ir::BuildClosure { param_count: 1, func: anon }, Ir::Return];
    assert_eq!(show(body(&ir, "make")), show(&wanted));
    let inner = ir.functions.get(&String::from("<anon>")).unwrap();
    let names: Vec<&str> = inner.args.iter().map(|p| p.id.as_str()).collect();
    assert_eq!(names, vec!["x", "y"]);
    let inner_code = vec![
        load("x"),
        load("y"),
        Ir::CallStatic { func: operator("+", shape_float()) },
        Ir::Return,
    ];
    assert_eq!(show(&inner.body), show(&inner_code));
}

#[test]
fn a_lambda_that_captures_nothing_is_a_constant() {
    let constant = lambda(vec![], num(7.0));
    let make = function("make", vec![], shape_function(vec![], shape_float()), constant);
    let ir = lower(vec![make]);
    let anon = own("<anon>", shape_function(vec![], shape_float()));
    let wanted = vec![Ir::LoadConstFunction { value: anon }, Ir::Return];
    assert_eq!(show(body(&ir, "make")), show(&wanted));
}

#[test]
fn a_recursive_local_function_is_wrapped_stored_and_has_itself_as_a_local() {
    let count = local_function(
        "count",
        vec![param("n", shape_float())],
        shape_float(),
        when(
            bin("==", var("n"), num(0.0)),
            num(0.0),
            call(var("count"), vec![bin("-", var("n"), num(1.0))]),
        ),
    );
    let main = function("main", vec![], shape_float(), block(vec![count, call(var("count"), vec![num(3.0)])]));
    let ir = lower(vec![main]);
    let count_shape = shape_function(vec![shape_float()], shape_float());
    let wanted = vec![
        Ir::LoadConstFunction { value: own("count", count_shape.clone()) },
        Ir::BuildRecursiveFunction,
        store("count"),
        load("count"),
        number(3.0),
        Ir::CallDynamic { param_count: 1 },
        Ir::Return,
    ];
    assert_eq!(show(body(&ir, "main")), show(&wanted));
    let inner = ir.functions.get(&String::from("count")).unwrap();
    let names: Vec<&str> = inner.args.iter().map(|p| p.id.as_str()).collect();
    assert_eq!(names, vec!["count", "n"]);
    assert_eq!(inner.args[0].shape, count_shape);
    let inner_code = vec![
        load("n"),
        number(0.0),
        Ir::CallStatic { func: operator("==", shape_boolean()) },
        Ir::Branch {
            then_block: vec![number(0.0)],
            else_block: vec![
                load("count"),
                load("n"),
                number(1.0),
                Ir::CallStatic { func: operator("-", shape_float()) },
                Ir::CallDynamic { param_count: 1 },
            ],
        },
        Ir::Return,
    ];
    assert_eq!(show(&inner.body), show(&inner_code));
}

#[test]
fn every_lowered_body_ends_with_a_return() {
    let adder = lambda(vec![param("y", shape_float())], bin("+", var("x"), var("y")));
    let make = function(
        "make",
        vec![param("x", shape_float())],
        shape_function(vec![shape_float()], shape_float()),
        adder,
    );
    let empty = function("nothing", vec![], let_lang::shapes::shape_unit(), block(vec![]));
    let ir = lower(vec![make, empty]);
    assert_eq!(ir.functions.len(), 3);
    for f in &ir.functions.values {
        assert!(matches!(f.body.last(), Some(Ir::Return)));
    }
    assert_eq!(show(body(&ir, "nothing")), show(&vec![Ir::Return]));
}

#[test]
fn a_name_that_nothing_declares_cannot_be_lowered() {
    let unchecked = module(vec![function("main", vec![], shape_float(), var("ghost"))]);
    let error = compile_ir_module(&unchecked).unwrap_err();
    assert_eq!(error.kind, ErrorKind::UnknownName);
    assert_eq!(error.loc.map(|l| (l.x, l.y)), Some((2, 9)));
    let odd = module(vec![function("main", vec![], shape_float(), bin("%", num(1.0), num(2.0)))]);
    assert_eq!(compile_ir_module(&odd).unwrap_err().kind, ErrorKind::UnknownName);
}

#[test]
fn the_core_has_the_ten_operators() {
    let core_context = IrCoreContext::new();
    assert_eq!(core_context.scope.names, vec!["+", "-", "*", "/", "==", "!=", ">", "<", ">=", "<="]);
    let plus = core_context.scope.get(&String::from("+")).unwrap();
    assert_eq!(plus.pretty(), "Core::Core.+");
    assert_eq!(plus.shape, shape_function(vec![shape_float(), shape_float()], shape_float()));
    let less = core_context.scope.get(&String::from("<")).unwrap();
    assert_eq!(less.shape, shape_function(vec![shape_float(), shape_float()], shape_boolean()));
}

#[test]
fn lookup_prefers_locals_over_functions_and_functions_over_the_core() {
    let mut context = IrModuleContext::new(String::from("p"), String::from("m"));
    let loc = at();
    assert!(matches!(context.lookup(&String::from("+"), &loc), Ok(ScopeLookup::Static(_))));
    assert_eq!(context.lookup(&String::from("f"), &loc).unwrap_err().kind, ErrorKind::UnknownName);
    context.declared_functions.insert(String::from("f"), own("f", shape_float()));
    assert!(matches!(context.lookup(&String::from("f"), &loc), Ok(ScopeLookup::Static(_))));
    context.store(String::from("f"));
    assert!(matches!(context.lookup(&String::from("f"), &loc), Ok(ScopeLookup::Static(_))));
    context.push_function(vec![String::from("a")]);
    context.store(String::from("f"));
    assert!(matches!(context.lookup(&String::from("f"), &loc), Ok(ScopeLookup::Local)));
    assert!(matches!(context.lookup(&String::from("a"), &loc), Ok(ScopeLookup::Local)));
    let mut one = IrFuncContext::new();
    assert!(one.lookup(&String::from("a")).is_none());
    one.store(String::from("a"));
    assert!(matches!(one.lookup(&String::from("a")), Some(ScopeLookup::Local)));
}

#[test]
fn a_call_with_more_arguments_than_a_count_holds_cannot_be_lowered() {
    let args: Vec<Expression> = (0..65536).map(|_| Expression::NoOp(at())).collect();
    let apply = function(
        "apply",
        vec![param("f", shape_function(vec![], shape_float()))],
        shape_float(),
        call(var("f"), args),
    );
    let error = compile_ir_module(&module(vec![apply])).unwrap_err();
    assert_eq!(error.kind, ErrorKind::TooManyArguments);
    let most: Vec<Expression> = (0..65535).map(|_| Expression::NoOp(at())).collect();
    let fits = function(
        "apply",
        vec![param("f", shape_function(vec![], shape_float()))],
        shape_float(),
        call(var("f"), most),
    );
    let lowered = compile_ir_module(&module(vec![fits])).unwrap();
    let wanted = vec![load("f"), Ir::CallDynamic { param_count: 65535 }, Ir::Return];
    assert_eq!(show(body(&lowered, "apply")), show(&wanted));
}

#[test]
fn a_lowered_module_knows_names_and_shapes_of_its_functions() {
    let twice = function("twice", vec![param("n", shape_float())], shape_float(), bin("*", var("n"), num(2.0)));
    let main = function("main", vec![], shape_float(), call(var("twice"), vec![num(4.0)]));
    let ir = lower(vec![main, twice]);
    assert_eq!(ir.list_values(), vec!["main", "twice"]);
    assert_eq!(ir.lookup(&String::from("twice")), Some(shape_function(vec![shape_float()], shape_float())));
    assert_eq!(ir.lookup(&String::from("main")), Some(shape_function(vec![], shape_float())));
    assert_eq!(ir.lookup(&String::from("thrice")), None);
}
