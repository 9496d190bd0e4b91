use let_lang::ast::{
    AssignmentEx, BinaryOpEx, BlockEx, CallEx, Expression, FunctionContext, FunctionDeclaration,
    FunctionDeclarationEx, IfEx, Location, Module, NumberLiteralEx, Parameter, VariableEx,
    Visibility,
};
use let_lang::bytecode::{BitApplication, BitPackage, FunctionRef};
use let_lang::compiler::compile;
use let_lang::error::{ErrorKind, LangError};
use let_lang::interpreter::{Answer, Control, Execution, FloatOp, Machine};
use let_lang::lexer::{lex, TokenKind};
use let_lang::parser::parse;
use let_lang::lower::compile_ir_module;
use let_lang::runtime::{FunctionHandle, Value};
use let_lang::shapes::{shape_float, shape_function, shape_list, shape_unknown, Shape};
use let_lang::typechecker::check_module;
use std::rc::Rc;

fn at(x: usize, y: usize) -> Location {
    Location { src: String::from("test.let"), x, y }
}

fn num(value: f64) -> Expression {
    NumberLiteralEx { shape: shape_float(), loc: at(0, 0), value: value.to_bits() }.wrap()
}

fn var(id: &str) -> Expression {
    VariableEx { shape: shape_unknown(), loc: at(0, 0), id: String::from(id) }.wrap()
}

fn bin(op: &str, left: Expression, right: Expression) -> Expression {
    BinaryOpEx { shape: shape_unknown(), loc: at(0, 0), op: String::from(op), left, right }.wrap()
}

fn call(func: Expression, args: Vec<Expression>) -> Expression {
    CallEx { shape: shape_unknown(), loc: at(0, 0), func, args }.wrap()
}

fn when(condition: Expression, then_block: Expression, else_block: Expression) -> Expression {
    IfEx { shape: shape_unknown(), loc: at(0, 0), condition, then_block, else_block }.wrap()
}

fn block(body: Vec<Expression>) -> Expression {
    BlockEx { shape: shape_unknown(), loc: at(0, 0), body }.wrap()
}

fn assign(id: &str, body: Expression, x: usize, y: usize) -> Expression {
    AssignmentEx { shape: shape_unknown(), loc: at(x, y), id: String::from(id), body }.wrap()
}

fn param(id: &str, shape: Shape) -> Parameter {
    Parameter { id: String::from(id), shape }
}

fn function(id: &str, args: Vec<Parameter>, result: Shape, body: Expression) -> FunctionDeclaration {
    FunctionDeclaration {
        visibility: Visibility::Private,
        ex: FunctionDeclarationEx {
            result,
            loc: at(0, 0),
            id: String::from(id),
            args,
            body,
            context: FunctionContext::new(false, false),
        },
    }
}

fn lambda(args: Vec<Parameter>, body: Expression) -> Expression {
    FunctionDeclarationEx {
        result: shape_unknown(),
        loc: at(0, 0),
        id: String::from("<anon>"),
        args,
        body,
        context: FunctionContext::new(true, true),
    }
    .wrap()
}

fn module(functions: Vec<FunctionDeclaration>) -> Module {
    Module { package: String::from("test"), name: String::from("basic"), functions }
}

fn main_ref() -> FunctionRef {
    FunctionRef {
        package: String::from("test"),
        module: String::from("basic"),
        name: String::from("main"),
        shape: shape_function(vec![], shape_float()),
    }
}

fn machine_for(source: Module) -> Result<Machine, LangError> {
    let checked = check_module(source)?;
    let lowered = compile_ir_module(&checked)?;
    let compiled = compile(lowered)?;
    let mut package = BitPackage::new();
    package.modules.insert(String::from("basic"), compiled);
    let mut app = BitApplication::new(main_ref());
    app.packages.insert(String::from("test"), package);
    Ok(Machine::new(app))
}

fn compute(op: FloatOp, left: u64, right: u64) -> Answer {
    let l = f64::from_bits(left);
    let r = f64::from_bits(right);
    match op {
        FloatOp::Add => Answer::Number((l + r).to_bits()),
        FloatOp::Subtract => Answer::Number((l - r).to_bits()),
        FloatOp::Multiply => Answer::Number((l * r).to_bits()),
        FloatOp::Divide => Answer::Number((l / r).to_bits()),
        FloatOp::Equal => Answer::Truth(l == r),
        FloatOp::NotEqual => Answer::Truth(l != r),
        FloatOp::Less => Answer::Truth(l < r),
        FloatOp::Greater => Answer::Truth(l > r),
        FloatOp::LessEqual => Answer::Truth(l <= r),
        FloatOp::GreaterEqual => Answer::Truth(l >= r),
    }
}

fn drive(machine: &Machine, start: Execution) -> (Result<Value, LangError>, usize) {
    let mut run = start;
    let mut deepest = 0usize;
    loop {
        run = machine.run(run, 1000);
        if run.frames.len() > deepest {
            deepest = run.frames.len();
        }
        let Execution { frames, control } = run;
        match control {
            Control::Finished { value } => return (Ok(value), deepest),
            Control::Failed { error } => return (Err(error), deepest),
            Control::Await { op, left, right } => {
                let waiting = Execution { frames, control: Control::Await { op, left, right } };
                run = Machine::answer(waiting, compute(op, left, right));
            }
            other => run = Execution { frames, control: other },
        }
    }
}

fn run_main(source: Module) -> Result<Value, LangError> {
    let machine = machine_for(source)?;
    let start = machine.run_main(0);
    drive(&machine, start).0
}

fn number(value: Result<Value, LangError>) -> f64 {
    match value {
        Ok(Value::Float(bits)) => f64::from_bits(bits),
        Ok(_) => panic!("the program gave something that is no number"),
        Err(error) => panic!("the program failed: {:?}", error),
    }
}

#[test]
fn arithmetic_runs_to_fourteen() {
    let body = bin("+", num(2.0), bin("*", num(3.0), num(4.0)));
    let source = module(vec![function("main", vec![], shape_float(), body)]);
    assert_eq!(number(run_main(source)), 14.0);
}

#[test]
fn boolean_branch_takes_the_then_arm() {
    let body = when(bin("<", num(1.0), num(2.0)), block(vec![num(10.0)]), block(vec![num(20.0)]));
    let source = module(vec![function("main", vec![], shape_float(), body)]);
    assert_eq!(number(run_main(source)), 10.0);
}

#[test]
fn boolean_branch_takes_the_else_arm() {
    let body = when(bin(">", num(1.0), num(2.0)), block(vec![num(10.0)]), block(vec![num(20.0)]));
    let source = module(vec![function("main", vec![], shape_float(), body)]);
    assert_eq!(number(run_main(source)), 20.0);
}

#[test]
fn tail_recursion_runs_without_growing() {
    let body = when(
        bin("==", var("n"), num(0.0)),
        block(vec![num(0.0)]),
        block(vec![call(var("loop"), vec![bin("-", var("n"), num(1.0))])]),
    );
    let looping = function("loop", vec![param("n", shape_float())], shape_float(), body);
    let main = function("main", vec![], shape_float(), call(var("loop"), vec![num(100000.0)]));
    let machine = machine_for(module(vec![looping, main])).unwrap();
    let (result, deepest) = drive(&machine, machine.run_main(0));
    assert_eq!(number(result), 0.0);
    assert!(deepest <= 2);
}

#[test]
fn closure_adds_what_it_captured() {
    let adder = lambda(vec![param("y", shape_unknown())], bin("+", var("x"), var("y")));
    let make = function(
        "make",
        vec![param("x", shape_float())],
        shape_function(vec![shape_float()], shape_float()),
        adder,
    );
    let main = function(
        "main",
        vec![],
        shape_float(),
        call(call(var("make"), vec![num(10.0)]), vec![num(5.0)]),
    );
    assert_eq!(number(run_main(module(vec![make, main]))), 15.0);
}

#[test]
fn list_fold_sums_what_was_appended() {
    let add = function(
        "add",
        vec![param("a", shape_float()), param("b", shape_float())],
        shape_float(),
        bin("+", var("a"), var("b")),
    );
    let main = function("main", vec![], shape_float(), num(0.0));
    let machine = machine_for(module(vec![add, main])).unwrap();
    let list_ref = |name: &str, shape: Shape| FunctionRef {
        package: String::from("Core"),
        module: String::from("List"),
        name: String::from(name),
        shape,
    };
    let numbers = shape_list(shape_float());
    let new_ref = list_ref("new", shape_function(vec![], numbers.clone()));
    let (made, _) = drive(&machine, machine.execute(new_ref, vec![], 0));
    let mut xs = made.unwrap();
    let empty = xs.clone();
    for item in [1.0f64, 2.0, 3.0, 4.0] {
        let append_ref =
            list_ref("append", shape_function(vec![numbers.clone(), shape_float()], numbers.clone()));
        let (next, _) =
            drive(&machine, machine.execute(append_ref, vec![xs, Value::Float(item.to_bits())], 0));
        xs = next.unwrap();
    }
    match (&empty, &xs) {
        (Value::List(before), Value::List(after)) => {
            assert_eq!(before.contents.len(), 0);
            assert_eq!(after.contents.len(), 4);
        }
        _ => panic!("append did not give a list"),
    }
    let add_ref = FunctionRef {
        package: String::from("test"),
        module: String::from("basic"),
        name: String::from("add"),
        shape: shape_function(vec![shape_float(), shape_float()], shape_float()),
    };
    let reducer = Value::Function(Rc::new(FunctionHandle::Plain(add_ref)));
    let fold_ref = list_ref(
        "fold",
        shape_function(
            vec![
                numbers.clone(),
                shape_float(),
                shape_function(vec![shape_float(), shape_float()], shape_float()),
            ],
            shape_float(),
        ),
    );
    let (sum, _) =
        drive(&machine, machine.execute(fold_ref, vec![xs, Value::Float(0.0f64.to_bits()), reducer], 0));
    assert_eq!(number(sum), 10.0);
}

#[test]
fn redeclaration_is_rejected_with_its_place() {
    let body = block(vec![
        assign("x", num(1.0), 3, 1),
        assign("x", num(2.0), 7, 2),
        var("x"),
    ]);
    let source = module(vec![function("main", vec![], shape_float(), body)]);
    match check_module(source) {
        Err(error) => {
            assert_eq!(error.kind, ErrorKind::Redeclaration);
            let loc = error.loc.expect("a redeclaration has its place");
            assert_eq!((loc.x, loc.y), (7, 2));
        }
        Ok(_) => panic!("the second declaration of x was accepted"),
    }
}

fn source(text: &str) -> Module {
    let mut tokens = lex("test.let", text).unwrap();
    for token in tokens.iter_mut() {
        if token.kind == TokenKind::Number {
            token.bits = token.value.parse::<f64>().unwrap().to_bits();
        }
    }
    parse(tokens, "test", "basic").unwrap()
}

#[test]
fn arithmetic_from_source_text() {
    assert_eq!(number(run_main(source("fun main(): Float = 2 + 3 * 4"))), 14.0);
}

#[test]
fn boolean_branch_from_source_text() {
    assert_eq!(number(run_main(source("fun main(): Float = if (1 < 2) { 10 } else { 20 }"))), 10.0);
}

#[test]
fn tail_recursion_from_source_text() {
    let text = "fun loop(n: Float): Float = if (n == 0) { 0 } else { loop(n - 1) } fun main(): Float = loop(100000)";
    let machine = machine_for(source(text)).unwrap();
    let (result, deepest) = drive(&machine, machine.run_main(0));
    assert_eq!(number(result), 0.0);
    assert!(deepest <= 2);
}

#[test]
fn closure_from_source_text() {
    let text = "fun make(x: Float): { Float -> Float } = { y => x + y } fun main(): Float = make(10)(5)";
    assert_eq!(number(run_main(source(text))), 15.0);
}

#[test]
fn factorial_from_source_text() {
    let text = "fun add(a: Float, b: Float): Float = a + b\nfun fact(n: Float): Float =\n  if (n == 0) { 1 } else { n * fact(n - 1) }\nfun main(): Float = fact(5)";
    assert_eq!(number(run_main(source(text))), 120.0);
}

#[test]
fn local_recursive_function_from_source_text() {
    let text = "fun main(): Float = { fun down(n: Float): Float = if (n <= 0) { 7 } else { down(n - 1) } down(3) }";
    assert_eq!(number(run_main(source(text))), 7.0);
}

#[test]
fn redeclaration_from_source_text() {
    let text = "fun main(): Float = { let x = 1; let x = 2; x }";
    match check_module(source(text)) {
        Err(error) => {
            assert_eq!(error.kind, ErrorKind::Redeclaration);
            let loc = error.loc.expect("a redeclaration has its place");
            assert_eq!((loc.src.as_str(), loc.x, loc.y), ("test.let", 34, 1));
        }
        Ok(_) => panic!("the second declaration of x was accepted"),
    }
}
