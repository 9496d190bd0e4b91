use let_lang::ast::{
    AssignmentEx, BinaryOpEx, BlockEx, CallEx, Expression, FunctionContext, FunctionDeclaration,
    FunctionDeclarationEx, IfEx, Location, Module, NumberLiteralEx, Parameter, StringLiteralEx,
    VariableEx, Visibility,
};
use let_lang::error::{ErrorKind, LangError};
use let_lang::shapes::{
    shape_boolean, shape_float, shape_function, shape_named, shape_string, shape_unit,
    shape_unknown, Shape,
};
use let_lang::typechecker::{check, check_module, verify, verify_function_declaration, Scope};

fn at(x: usize, y: usize) -> Location {
    Location { src: String::from("check.let"), x, y }
}

fn num(value: f64) -> Expression {
    NumberLiteralEx { shape: shape_unknown(), loc: at(0, 0), value: value.to_bits() }.wrap()
}

fn text(value: &str) -> Expression {
    StringLiteralEx { shape: shape_unknown(), loc: at(0, 0), value: String::from(value) }.wrap()
}

fn truth(value: bool) -> Expression {
    Expression::BooleanLiteral(at(0, 0), value)
}

fn var(id: &str) -> Expression {
    VariableEx { shape: shape_unknown(), loc: at(1, 1), id: String::from(id) }.wrap()
}

fn bin(op: &str, left: Expression, right: Expression) -> Expression {
    BinaryOpEx { shape: shape_unknown(), loc: at(2, 2), op: String::from(op), left, right }.wrap()
}

fn call(func: Expression, args: Vec<Expression>) -> Expression {
    CallEx { shape: shape_unknown(), loc: at(3, 3), func, args }.wrap()
}

fn when(condition: Expression, then_block: Expression, else_block: Expression) -> Expression {
    IfEx { shape: shape_unknown(), loc: at(4, 4), condition, then_block, else_block }.wrap()
}

fn block(body: Vec<Expression>) -> Expression {
    BlockEx { shape: shape_unknown(), loc: at(5, 5), body }.wrap()
}

fn assign(id: &str, shape: Shape, body: Expression) -> Expression {
    AssignmentEx { shape, loc: at(6, 6), id: String::from(id), body }.wrap()
}

fn param(id: &str, shape: Shape) -> Parameter {
    Parameter { id: String::from(id), shape }
}

fn declaration(id: &str, args: Vec<Parameter>, result: Shape, body: Expression, local: bool) -> FunctionDeclarationEx {
    FunctionDeclarationEx {
        result,
        loc: at(7, 7),
        id: String::from(id),
        args,
        body,
        context: FunctionContext::new(local, false),
    }
}

fn function(id: &str, args: Vec<Parameter>, result: Shape, body: Expression) -> FunctionDeclaration {
    FunctionDeclaration { visibility: Visibility::Public, ex: declaration(id, args, result, body, false) }
}

fn lambda(args: Vec<Parameter>, result: Shape, body: Expression) -> Expression {
    FunctionDeclarationEx {
        result,
        loc: at(8, 8),
        id: String::from("<anon>"),
        args,
        body,
        context: FunctionContext::new(true, true),
    }
    .wrap()
}

fn module(functions: Vec<FunctionDeclaration>) -> Module {
    Module { package: String::from("test"), name: String::from("basic"), functions }
}

fn main_with(body: Expression, result: Shape) -> Module {
    module(vec![function("main", vec![], result, body)])
}

fn rejected(source: Module) -> LangError {
    match check_module(source) {
        Err(error) => error,
        Ok(_) => panic!("the module was accepted"),
    }
}

fn body_of(checked: &Module, index: usize) -> &Expression {
    &checked.functions[index].ex.body
}

#[test]
fn literals_get_their_shapes() {
    let checked = check_module(main_with(
        block(vec![text("a"), truth(true), num(1.0)]),
        shape_float(),
    ))
    .unwrap();
    match body_of(&checked, 0) {
        Expression::Block(b) => {
            assert_eq!(b.body[0].shape(), shape_string());
            assert_eq!(b.body[1].shape(), shape_boolean());
            assert_eq!(b.body[2].shape(), shape_float());
            assert_eq!(b.shape, shape_float());
        }
        _ => panic!("the body is no block"),
    }
    assert_eq!(checked.package, "test");
    assert_eq!(checked.name, "basic");
}

#[test]
fn operations_give_numbers_and_comparisons_give_booleans() {
    for op in ["+", "-", "*", "/"] {
        let checked = check_module(main_with(bin(op, num(1.0), num(2.0)), shape_float())).unwrap();
        assert_eq!(body_of(&checked, 0).shape(), shape_float());
    }
    for op in ["==", "!=", "<", ">", "<=", ">="] {
        let checked = check_module(main_with(bin(op, num(1.0), num(2.0)), shape_boolean())).unwrap();
        assert_eq!(body_of(&checked, 0).shape(), shape_boolean());
    }
}

#[test]
fn operands_must_be_numbers() {
    let error = rejected(main_with(bin("+", num(1.0), text("two")), shape_float()));
    assert_eq!(error.kind, ErrorKind::IncompatibleTypes);
    assert_eq!(error.loc.map(|l| (l.x, l.y)), Some((2, 2)));
    let error = rejected(main_with(bin("<", truth(true), num(1.0)), shape_boolean()));
    assert_eq!(error.kind, ErrorKind::IncompatibleTypes);
}

#[test]
fn an_operator_that_is_none_of_the_ten_is_rejected() {
    let error = rejected(main_with(bin("%", num(1.0), num(2.0)), shape_float()));
    assert_eq!(error.kind, ErrorKind::UndeclaredVariable);
}

#[test]
fn undeclared_variable_is_rejected_with_its_place() {
    let error = rejected(main_with(var("nowhere"), shape_float()));
    assert_eq!(error.kind, ErrorKind::UndeclaredVariable);
    assert_eq!(error.loc.map(|l| (l.src, l.x, l.y)), Some((String::from("check.let"), 1, 1)));
}

#[test]
fn declared_and_found_result_must_agree() {
    let error = rejected(main_with(text("no number"), shape_float()));
    assert_eq!(error.kind, ErrorKind::IncompatibleTypes);
    assert_eq!(error.loc.map(|l| (l.x, l.y)), Some((7, 7)));
}

#[test]
fn an_unknown_type_name_is_rejected() {
    let error = rejected(main_with(num(1.0), shape_named(String::from("Number"))));
    assert_eq!(error.kind, ErrorKind::UnresolvedNamedShape);
    let error = rejected(main_with(
        block(vec![assign("x", shape_named(String::from("Int")), num(1.0)), var("x")]),
        shape_float(),
    ));
    assert_eq!(error.kind, ErrorKind::UnresolvedNamedShape);
}

#[test]
fn named_shapes_are_filled() {
    let source = module(vec![function(
        "id",
        vec![param("x", shape_named(String::from("Float")))],
        shape_named(String::from("Float")),
        var("x"),
    )]);
    let checked = check_module(source).unwrap();
    assert_eq!(checked.functions[0].ex.args[0].shape, shape_float());
    assert_eq!(checked.functions[0].ex.result, shape_float());
    assert_eq!(body_of(&checked, 0).shape(), shape_float());
    assert_eq!(checked.functions[0].ex.shape(), shape_function(vec![shape_float()], shape_float()));
}

#[test]
fn assignment_takes_the_shape_of_its_body() {
    let checked = check_module(main_with(
        block(vec![assign("x", shape_unknown(), num(1.0)), var("x")]),
        shape_float(),
    ))
    .unwrap();
    match body_of(&checked, 0) {
        Expression::Block(b) => {
            assert_eq!(b.body[0].shape(), shape_float());
            assert_eq!(b.body[1].shape(), shape_float());
        }
        _ => panic!("the body is no block"),
    }
}

#[test]
fn assignment_must_agree_with_its_declared_shape() {
    let error = rejected(main_with(
        block(vec![assign("x", shape_string(), num(1.0)), num(2.0)]),
        shape_float(),
    ));
    assert_eq!(error.kind, ErrorKind::IncompatibleTypes);
    assert_eq!(error.loc.map(|l| (l.x, l.y)), Some((6, 6)));
}

#[test]
fn redeclaration_in_the_same_block_is_rejected() {
    let error = rejected(main_with(
        block(vec![
            assign("x", shape_unknown(), num(1.0)),
            assign("x", shape_unknown(), num(2.0)),
            var("x"),
        ]),
        shape_float(),
    ));
    assert_eq!(error.kind, ErrorKind::Redeclaration);
}

#[test]
fn a_parameter_cannot_be_declared_twice() {
    let source = module(vec![function(
        "f",
        vec![param("a", shape_float()), param("a", shape_float())],
        shape_float(),
        var("a"),
    )]);
    assert_eq!(rejected(source).kind, ErrorKind::Redeclaration);
}

#[test]
fn an_inner_block_may_shadow_and_the_inner_declaration_wins() {
    let inner = block(vec![assign("x", shape_unknown(), text("inner")), var("x")]);
    let checked = check_module(main_with(
        block(vec![assign("x", shape_unknown(), num(1.0)), inner, var("x")]),
        shape_float(),
    ))
    .unwrap();
    match body_of(&checked, 0) {
        Expression::Block(b) => {
            assert_eq!(b.body[1].shape(), shape_string());
            assert_eq!(b.body[2].shape(), shape_float());
        }
        _ => panic!("the body is no block"),
    }
}

#[test]
fn what_a_block_declares_is_gone_behind_it() {
    let inner = block(vec![assign("y", shape_unknown(), num(1.0)), var("y")]);
    let error = rejected(main_with(block(vec![inner, var("y")]), shape_float()));
    assert_eq!(error.kind, ErrorKind::UndeclaredVariable);
}

#[test]
fn an_empty_block_is_unit() {
    let checked = check_module(main_with(block(vec![]), shape_unit())).unwrap();
    assert_eq!(body_of(&checked, 0).shape(), shape_unit());
}

#[test]
fn condition_must_be_boolean() {
    let error = rejected(main_with(when(num(1.0), num(2.0), num(3.0)), shape_float()));
    assert_eq!(error.kind, ErrorKind::IncompatibleTypes);
    assert_eq!(error.loc.map(|l| (l.x, l.y)), Some((4, 4)));
}

#[test]
fn both_arms_must_agree() {
    let error = rejected(main_with(when(truth(true), num(2.0), text("three")), shape_float()));
    assert_eq!(error.kind, ErrorKind::IncompatibleTypes);
    let checked = check_module(main_with(when(truth(false), text("a"), text("b")), shape_string())).unwrap();
    assert_eq!(body_of(&checked, 0).shape(), shape_string());
}

#[test]
fn call_takes_the_result_of_the_function() {
    let twice = function("twice", vec![param("n", shape_float())], shape_float(), bin("*", var("n"), num(2.0)));
    let main = function("main", vec![], shape_float(), call(var("twice"), vec![num(4.0)]));
    let checked = check_module(module(vec![main, twice])).unwrap();
    assert_eq!(body_of(&checked, 0).shape(), shape_float());
    match body_of(&checked, 0) {
        Expression::Call(c) => {
            assert_eq!(c.func.shape(), shape_function(vec![shape_float()], shape_float()));
            assert_eq!(c.args[0].shape(), shape_float());
        }
        _ => panic!("the body is no call"),
    }
}

#[test]
fn call_with_the_wrong_number_of_arguments_is_rejected() {
    let twice = function("twice", vec![param("n", shape_float())], shape_float(), var("n"));
    let main = function("main", vec![], shape_float(), call(var("twice"), vec![num(4.0), num(5.0)]));
    let error = rejected(module(vec![twice, main]));
    assert_eq!(error.kind, ErrorKind::WrongArity);
    assert_eq!(error.loc.map(|l| (l.x, l.y)), Some((3, 3)));
}

#[test]
fn call_with_an_argument_of_the_wrong_shape_is_rejected() {
    let twice = function("twice", vec![param("n", shape_float())], shape_float(), var("n"));
    let main = function("main", vec![], shape_float(), call(var("twice"), vec![text("four")]));
    assert_eq!(rejected(module(vec![twice, main])).kind, ErrorKind::IncompatibleTypes);
}

#[test]
fn call_of_what_is_no_function_is_rejected() {
    let error = rejected(main_with(call(num(1.0), vec![]), shape_float()));
    assert_eq!(error.kind, ErrorKind::NotAFunction);
}

#[test]
fn a_lambda_takes_its_parameter_shapes_from_what_is_expected() {
    let apply = function(
        "apply",
        vec![param("f", shape_function(vec![shape_float()], shape_float()))],
        shape_float(),
        call(var("f"), vec![num(1.0)]),
    );
    let adder = lambda(vec![param("y", shape_unknown())], shape_unknown(), bin("+", var("y"), num(1.0)));
    let main = function("main", vec![], shape_float(), call(var("apply"), vec![adder]));
    let checked = check_module(module(vec![apply, main])).unwrap();
    match body_of(&checked, 1) {
        Expression::Call(c) => match &c.args[0] {
            Expression::FunctionDeclaration(f) => {
                assert_eq!(f.args[0].shape, shape_float());
                assert_eq!(f.result, shape_float());
                assert!(f.context.closures.is_empty());
                assert!(!f.context.is_recursive);
                assert!(f.context.is_lambda);
            }
            _ => panic!("the argument is no function"),
        },
        _ => panic!("the body is no call"),
    }
}

#[test]
fn a_lambda_with_nothing_known_of_its_parameter_is_rejected() {
    let adder = lambda(vec![param("y", shape_unknown())], shape_unknown(), var("y"));
    let error = rejected(main_with(block(vec![adder, num(1.0)]), shape_float()));
    assert_eq!(error.kind, ErrorKind::UnknownShape);
}

#[test]
fn a_function_captures_what_it_uses_of_the_function_around_it() {
    let adder = lambda(
        vec![param("y", shape_float())],
        shape_unknown(),
        bin("+", bin("+", var("x"), var("y")), var("z")),
    );
    let make = function(
        "make",
        vec![param("x", shape_float()), param("unused", shape_string()), param("z", shape_float())],
        shape_function(vec![shape_float()], shape_float()),
        adder,
    );
    let checked = check_module(module(vec![make])).unwrap();
    assert!(checked.functions[0].ex.context.closures.is_empty());
    match body_of(&checked, 0) {
        Expression::FunctionDeclaration(f) => {
            let captured: Vec<(&str, &Shape)> =
                f.context.closures.iter().map(|p| (p.id.as_str(), &p.shape)).collect();
            assert_eq!(captured, vec![("x", &shape_float()), ("z", &shape_float())]);
            assert!(!f.context.is_recursive);
        }
        _ => panic!("the body is no function"),
    }
}

#[test]
fn a_function_of_the_module_is_not_captured() {
    let helper = function("helper", vec![], shape_float(), num(1.0));
    let body = lambda(vec![], shape_unknown(), call(var("helper"), vec![]));
    let make = function("make", vec![], shape_function(vec![], shape_float()), body);
    let checked = check_module(module(vec![helper, make])).unwrap();
    match body_of(&checked, 1) {
        Expression::FunctionDeclaration(f) => assert!(f.context.closures.is_empty()),
        _ => panic!("the body is no function"),
    }
}

#[test]
fn a_local_function_that_names_itself_is_recursive() {
    let count = declaration(
        "count",
        vec![param("n", shape_float())],
        shape_float(),
        when(
            bin("==", var("n"), num(0.0)),
            num(0.0),
            call(var("count"), vec![bin("-", var("n"), num(1.0))]),
        ),
        true,
    )
    .wrap();
    let main = function("main", vec![], shape_float(), block(vec![count, call(var("count"), vec![num(3.0)])]));
    let checked = check_module(module(vec![main])).unwrap();
    match body_of(&checked, 0) {
        Expression::Block(b) => match &b.body[0] {
            Expression::FunctionDeclaration(f) => {
                assert!(f.context.is_recursive);
                assert!(f.context.closures.is_empty());
                assert!(f.context.is_local);
            }
            _ => panic!("the first statement is no function"),
        },
        _ => panic!("the body is no block"),
    }
    assert!(!checked.functions[0].ex.context.is_recursive);
}

#[test]
fn a_function_of_the_module_that_calls_itself_is_not_marked_recursive() {
    let looping = function(
        "loop",
        vec![param("n", shape_float())],
        shape_float(),
        call(var("loop"), vec![var("n")]),
    );
    let checked = check_module(module(vec![looping])).unwrap();
    assert!(!checked.functions[0].ex.context.is_recursive);
    assert!(checked.functions[0].ex.context.closures.is_empty());
}

#[test]
fn functions_of_a_module_know_each_other_whatever_their_order() {
    let first = function("first", vec![], shape_float(), call(var("second"), vec![]));
    let second = function("second", vec![], shape_float(), call(var("first"), vec![]));
    assert!(check_module(module(vec![first, second])).is_ok());
}

#[test]
fn an_empty_module_checks_to_an_empty_module() {
    let checked = check_module(module(vec![])).unwrap();
    assert!(checked.functions.is_empty());
}

#[test]
fn verify_lets_the_known_side_decide() {
    let loc = at(9, 9);
    assert_eq!(verify(&shape_unknown(), &shape_float(), &loc).unwrap(), shape_float());
    assert_eq!(verify(&shape_string(), &shape_unknown(), &loc).unwrap(), shape_string());
    assert_eq!(
        verify(&shape_named(String::from("Float")), &shape_float(), &loc).unwrap(),
        shape_float()
    );
    assert_eq!(
        verify(&shape_unknown(), &shape_named(String::from("Boolean")), &loc).unwrap(),
        shape_boolean()
    );
}

#[test]
fn verify_fails_where_nothing_or_nothing_common_is_known() {
    let loc = at(9, 9);
    let both_open = verify(&shape_unknown(), &shape_unknown(), &loc).unwrap_err();
    assert_eq!(both_open.kind, ErrorKind::UnknownShape);
    assert_eq!(both_open.loc.map(|l| (l.x, l.y)), Some((9, 9)));
    let apart = verify(&shape_float(), &shape_string(), &loc).unwrap_err();
    assert_eq!(apart.kind, ErrorKind::IncompatibleTypes);
    let unnamed = verify(&shape_named(String::from("Nope")), &shape_float(), &loc).unwrap_err();
    assert_eq!(unnamed.kind, ErrorKind::UnresolvedNamedShape);
}

#[test]
fn parameters_are_verified_against_the_expected_function_shape() {
    let loc = at(0, 0);
    let params = vec![param("a", shape_unknown()), param("b", shape_named(String::from("String")))];
    let expected = shape_function(vec![shape_float(), shape_unknown()], shape_unit());
    let verified = verify_function_declaration(&params, &expected, &loc).unwrap();
    assert_eq!(verified.len(), 2);
    assert_eq!((verified[0].id.as_str(), &verified[0].shape), ("a", &shape_float()));
    assert_eq!((verified[1].id.as_str(), &verified[1].shape), ("b", &shape_string()));
    let declared = vec![param("a", shape_float())];
    let nothing_expected = verify_function_declaration(&declared, &shape_unknown(), &loc).unwrap();
    assert_eq!(nothing_expected[0].shape, shape_float());
    let clash = verify_function_declaration(&declared, &shape_function(vec![shape_string()], shape_unit()), &loc);
    assert_eq!(clash.unwrap_err().kind, ErrorKind::IncompatibleTypes);
}

#[test]
fn parameters_beyond_the_expected_ones_are_left_out() {
    let loc = at(0, 0);
    let params = vec![param("a", shape_float()), param("b", shape_float())];
    let expected = shape_function(vec![shape_float()], shape_unit());
    let verified = verify_function_declaration(&params, &expected, &loc).unwrap();
    assert_eq!(verified.len(), 1);
    assert_eq!(verified[0].id, "a");
}

#[test]
fn scope_finds_the_innermost_declaration_and_notes_captures() {
    let loc = at(0, 0);
    let mut scope = Scope::new();
    scope.pre_fill_module_function(String::from("top"), shape_named(String::from("Unit")), &loc).unwrap();
    scope.create_function_scope();
    scope.set_scope(&String::from("x"), &shape_float(), &loc).unwrap();
    assert_eq!(scope.set_scope(&String::from("x"), &shape_string(), &loc).unwrap_err().kind, ErrorKind::Redeclaration);
    scope.create_block_scope();
    scope.set_scope(&String::from("x"), &shape_string(), &loc).unwrap();
    assert_eq!(scope.check_scope(&String::from("x"), &loc).unwrap(), shape_string());
    scope.destroy_block_scope();
    assert_eq!(scope.check_scope(&String::from("x"), &loc).unwrap(), shape_float());
    scope.create_function_scope();
    assert_eq!(scope.check_scope(&String::from("x"), &loc).unwrap(), shape_float());
    assert_eq!(scope.check_scope(&String::from("top"), &loc).unwrap(), shape_unit());
    assert_eq!(scope.check_scope(&String::from("gone"), &loc).unwrap_err().kind, ErrorKind::UndeclaredVariable);
    let captured = scope.destroy_function_scope();
    assert_eq!(captured.len(), 1);
    assert_eq!((captured[0].id.as_str(), &captured[0].shape), ("x", &shape_float()));
    let outer = scope.destroy_function_scope();
    assert!(outer.is_empty());
    assert_eq!(scope.set_scope(&String::from("y"), &shape_float(), &loc).unwrap_err().kind, ErrorKind::NoActivation);
}

#[test]
fn check_gives_an_expression_of_the_same_kind() {
    let mut scope = Scope::new();
    scope.create_function_scope();
    let checked = check(&mut scope, &bin("+", num(1.0), num(2.0)), &shape_unknown()).unwrap();
    match checked {
        Expression::BinaryOp(op) => {
            assert_eq!(op.op, "+");
            assert_eq!(op.shape, shape_float());
            assert_eq!((op.loc.x, op.loc.y), (2, 2));
        }
        _ => panic!("the operation came back as something else"),
    }
    let untouched = check(&mut scope, &Expression::NoOp(at(3, 4)), &shape_unknown()).unwrap();
    assert_eq!(untouched.shape(), shape_unit());
    assert_eq!((untouched.loc().x, untouched.loc().y), (3, 4));
}
