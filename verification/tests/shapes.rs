use let_lang::ast::{Location, Parameter};
use let_lang::bytecode::FunctionRef;
use let_lang::core_shapes::{core_package, AppShapes};
use let_lang::interpreter::RunFunction;
use let_lang::lib_core::core_runtime;
use let_lang::error::{ErrorKind, LangError};
use let_lang::shapes::{
    fill_shape, shape_boolean, shape_float, shape_function, shape_list, shape_named, shape_string,
    shape_unit, shape_unknown, BaseShapeKind, Shape,
};
use let_lang::support::NameMap;

fn here() -> Location {
    Location { src: String::from("shapes.let"), x: 4, y: 12 }
}

fn named(name: &str) -> Shape {
    shape_named(String::from(name))
}

#[test]
fn constructors_give_the_primitive_shapes() {
    assert_eq!(shape_float(), Shape::BaseShape { kind: BaseShapeKind::Float });
    assert_eq!(shape_string(), Shape::BaseShape { kind: BaseShapeKind::String });
    assert_eq!(shape_boolean(), Shape::BaseShape { kind: BaseShapeKind::Boolean });
    assert_eq!(shape_unit(), Shape::BaseShape { kind: BaseShapeKind::Unit });
    assert_eq!(shape_unknown(), Shape::UnknownShape);
    assert_eq!(named("Thing"), Shape::NamedShape { name: String::from("Thing") });
}

#[test]
fn list_shape_is_the_list_base_applied_to_its_item() {
    assert_eq!(
        shape_list(shape_float()),
        Shape::GenericShape {
            base: Box::new(Shape::BaseShape { kind: BaseShapeKind::List }),
            args: vec![shape_float()],
        }
    );
}

#[test]
fn equality_is_structural() {
    let a = shape_function(vec![shape_float(), shape_list(shape_string())], shape_boolean());
    let b = shape_function(vec![shape_float(), shape_list(shape_string())], shape_boolean());
    let other_result = shape_function(vec![shape_float(), shape_list(shape_string())], shape_unit());
    let other_arg = shape_function(vec![shape_float(), shape_list(shape_float())], shape_boolean());
    let fewer = shape_function(vec![shape_float()], shape_boolean());
    assert!(a == b);
    assert!(a.same(&b));
    assert!(a != other_result);
    assert!(a != other_arg);
    assert!(a != fewer);
    assert!(named("Float") != shape_float());
    assert!(a.clone() == a);
}

#[test]
fn fill_replaces_each_known_name() {
    assert_eq!(fill_shape(&named("Float"), &here()).unwrap(), shape_float());
    assert_eq!(fill_shape(&named("String"), &here()).unwrap(), shape_string());
    assert_eq!(fill_shape(&named("Unit"), &here()).unwrap(), shape_unit());
    assert_eq!(fill_shape(&named("Boolean"), &here()).unwrap(), shape_boolean());
}

#[test]
fn fill_works_inside_functions_and_generics() {
    let raw = shape_function(
        vec![named("Float"), shape_list(named("String"))],
        shape_function(vec![], named("Boolean")),
    );
    let filled = shape_function(
        vec![shape_float(), shape_list(shape_string())],
        shape_function(vec![], shape_boolean()),
    );
    assert_eq!(fill_shape(&raw, &here()).unwrap(), filled);
    let ctor = Shape::GenericShapeConstructor { base: Box::new(named("Unit")), args: 2 };
    assert_eq!(
        fill_shape(&ctor, &here()).unwrap(),
        Shape::GenericShapeConstructor { base: Box::new(shape_unit()), args: 2 }
    );
}

#[test]
fn fill_leaves_other_shapes_as_they_are() {
    assert_eq!(fill_shape(&shape_unknown(), &here()).unwrap(), shape_unknown());
    assert_eq!(fill_shape(&shape_float(), &here()).unwrap(), shape_float());
    let filled = shape_function(vec![shape_float()], shape_list(shape_float()));
    assert_eq!(fill_shape(&filled, &here()).unwrap(), filled);
}

#[test]
fn fill_twice_is_fill_once() {
    let raw = shape_function(vec![named("Float")], shape_list(named("Unit")));
    let once = fill_shape(&raw, &here()).unwrap();
    let twice = fill_shape(&once, &here()).unwrap();
    assert_eq!(once, twice);
}

fn unresolved(result: Result<Shape, LangError>) -> Location {
    match result {
        Err(error) => {
            assert_eq!(error.kind, ErrorKind::UnresolvedNamedShape);
            error.loc.expect("an unknown name is reported with its place")
        }
        Ok(shape) => panic!("an unknown name was filled to {:?}", shape),
    }
}

#[test]
fn fill_fails_on_an_unknown_name_with_the_place() {
    let loc = unresolved(fill_shape(&named("Widget"), &here()));
    assert_eq!(loc.src, "shapes.let");
    assert_eq!((loc.x, loc.y), (4, 12));
}

#[test]
fn fill_fails_on_an_unknown_name_deep_inside() {
    let raw = shape_function(vec![shape_float(), shape_list(named("Widget"))], named("Float"));
    unresolved(fill_shape(&raw, &here()));
    let in_result = shape_function(vec![named("Float")], named("float"));
    unresolved(fill_shape(&in_result, &here()));
    let in_base = Shape::GenericShape { base: Box::new(named("List")), args: vec![named("Float")] };
    unresolved(fill_shape(&in_base, &here()));
}

#[test]
fn fill_shape_native_fills_known_names() {
    let raw = shape_function(vec![named("Float")], named("Boolean"));
    assert_eq!(raw.fill_shape_native(), shape_function(vec![shape_float()], shape_boolean()));
}

#[test]
fn pretty_writes_shapes_as_the_language_does() {
    assert_eq!(shape_float().pretty(), "Float");
    assert_eq!(shape_boolean().pretty(), "Boolean");
    assert_eq!(shape_string().pretty(), "String");
    assert_eq!(shape_unit().pretty(), "Unit");
    assert_eq!(Shape::BaseShape { kind: BaseShapeKind::List }.pretty(), "List");
    assert_eq!(shape_unknown().pretty(), "Unknown");
    assert_eq!(named("Widget").pretty(), "Widget");
    assert_eq!(shape_list(shape_float()).pretty(), "List[Float]");
    assert_eq!(
        shape_function(vec![shape_float(), shape_string()], shape_boolean()).pretty(),
        "{ Float, String -> Boolean }"
    );
    assert_eq!(shape_function(vec![], shape_unit()).pretty(), "{  -> Unit }");
    assert_eq!(
        shape_function(vec![shape_list(shape_float())], shape_function(vec![shape_float()], shape_float()))
            .pretty(),
        "{ List[Float] -> { Float -> Float } }"
    );
}

#[test]
fn pretty_writes_an_underscore_for_each_open_argument() {
    let list = Shape::BaseShape { kind: BaseShapeKind::List };
    let none = Shape::GenericShapeConstructor { base: Box::new(list.clone()), args: 0 };
    let one = Shape::GenericShapeConstructor { base: Box::new(list.clone()), args: 1 };
    let three = Shape::GenericShapeConstructor { base: Box::new(list), args: 3 };
    assert_eq!(none.pretty(), "List[]");
    assert_eq!(one.pretty(), "List[_]");
    assert_eq!(three.pretty(), "List[_, _, _]");
}

#[test]
fn location_is_written_with_file_line_and_column() {
    assert_eq!(here().pretty(), "at file: shapes.let, line: 12, column: 4");
    let origin = Location { src: String::new(), x: 0, y: 0 };
    assert_eq!(origin.pretty(), "at file: , line: 0, column: 0");
    let far = Location { src: String::from("a/b.let"), x: 1000, y: 90210 };
    assert_eq!(far.pretty(), "at file: a/b.let, line: 90210, column: 1000");
}

#[test]
fn location_makes_errors_at_its_place() {
    let error = here().error(ErrorKind::WrongArity);
    assert_eq!(error.kind, ErrorKind::WrongArity);
    assert_eq!(error.loc.as_ref().map(|l| (l.x, l.y)), Some((4, 12)));
    let failed: Result<u8, LangError> = here().fail(ErrorKind::NotAFunction);
    match failed {
        Err(error) => assert_eq!(error.kind, ErrorKind::NotAFunction),
        Ok(_) => panic!("fail gave a value"),
    }
}

#[test]
fn error_message_names_kind_and_place() {
    let placed = LangError::at(ErrorKind::Redeclaration, &here());
    assert_eq!(
        placed.message(),
        "Redeclaration of variable at file: shapes.let, line: 12, column: 4"
    );
    let bare = LangError::of(ErrorKind::MissingReturn);
    assert_eq!(bare.message(), "Overflowed function body");
    assert!(bare.loc.is_none());
}

#[test]
fn parameter_is_written_as_name_and_shape() {
    let p = Parameter { id: String::from("count"), shape: shape_list(shape_float()) };
    assert_eq!(p.pretty(), "count: List[Float]");
}

fn reference(package: &str, module: &str, name: &str, shape: Shape) -> FunctionRef {
    FunctionRef {
        package: String::from(package),
        module: String::from(module),
        name: String::from(name),
        shape,
    }
}

#[test]
fn function_refs_are_told_apart_by_package_module_and_name_only() {
    let a = reference("p", "m", "f", shape_function(vec![], shape_float()));
    let same_place = reference("p", "m", "f", shape_unit());
    assert!(a == same_place);
    assert!(a.same(&same_place));
    assert!(a != reference("q", "m", "f", shape_function(vec![], shape_float())));
    assert!(a != reference("p", "n", "f", shape_function(vec![], shape_float())));
    assert!(a != reference("p", "m", "g", shape_function(vec![], shape_float())));
}

#[test]
fn function_ref_result_is_the_result_of_its_function_shape() {
    let f = reference("p", "m", "f", shape_function(vec![shape_float()], shape_boolean()));
    assert_eq!(f.result(), shape_boolean());
    let value = reference("p", "m", "v", shape_string());
    assert_eq!(value.result(), shape_string());
}

#[test]
fn function_ref_is_written_with_colons_and_a_dot() {
    let f = reference("Core", "List", "append", shape_unit());
    assert_eq!(f.pretty(), "Core::List.append");
}

#[test]
fn name_map_keeps_first_come_order_and_replaces_in_place() {
    let mut map: NameMap<u16> = NameMap::new();
    assert_eq!(map.len(), 0);
    assert!(map.get(&String::from("a")).is_none());
    map.insert(String::from("a"), 1);
    map.insert(String::from("b"), 2);
    map.insert(String::from("c"), 3);
    map.insert(String::from("b"), 20);
    assert_eq!(map.len(), 3);
    assert_eq!(map.names, vec!["a", "b", "c"]);
    assert_eq!(map.values, vec![1, 20, 3]);
    assert_eq!(map.get(&String::from("b")), Some(&20));
    assert_eq!(map.find(&String::from("c")), Some(2));
    assert!(map.contains_key(&String::from("a")));
    assert!(!map.contains_key(&String::from("d")));
}

#[test]
fn the_core_shapes_are_known_by_package_module_and_name() {
    let shapes = AppShapes::new();
    let find = |package: &str, module: &str, name: &str| {
        shapes.lookup(&String::from(package), &String::from(module), &String::from(name))
    };
    let pair = vec![shape_float(), shape_float()];
    assert_eq!(find("Core", "Core", "+"), Some(shape_function(pair.clone(), shape_float())));
    assert_eq!(find("Core", "Core", "<="), Some(shape_function(pair.clone(), shape_boolean())));
    let list = shape_list(shape_float());
    assert_eq!(find("Core", "List", "new"), Some(shape_function(vec![], list.clone())));
    assert_eq!(
        find("Core", "List", "fold"),
        Some(shape_function(
            vec![list.clone(), shape_float(), shape_function(pair, shape_float())],
            shape_float()
        ))
    );
    assert_eq!(find("Core", "List", "+"), None);
    assert_eq!(find("Core", "Maths", "+"), None);
    assert_eq!(find("Other", "Core", "+"), None);
    let module = shapes.lookup_module(&String::from("Core"), &String::from("List")).unwrap();
    assert_eq!(module.list_values(), vec!["new", "append", "map", "fold"]);
    assert!(shapes.lookup_module(&String::from("Core"), &String::from("Nope")).is_none());
}

#[test]
fn the_core_shapes_are_the_shapes_of_the_built_in_functions() {
    let shapes = core_package();
    let runtime = core_runtime();
    assert_eq!(shapes.modules.names, runtime.modules.names);
    for (known, module) in shapes.modules.values.iter().zip(runtime.modules.values.iter()) {
        assert_eq!(known.functions.names, module.functions.names);
        for (shape, function) in known.functions.values.iter().zip(module.functions.values.iter()) {
            match function {
                RunFunction::NativeFunction(native) => assert_eq!(*shape, native.func_ref.shape),
                RunFunction::BitFunction(_) => panic!("a core function is compiled code"),
            }
        }
    }
    let core = shapes.lookup_module(&String::from("Core")).unwrap();
    assert_eq!(core.lookup(&String::from("*")), shapes.lookup(&String::from("Core"), &String::from("*")));
}

#[test]
fn every_kind_of_error_has_its_text() {
    let kinds = [
        ErrorKind::UndeclaredVariable,
        ErrorKind::Redeclaration,
        ErrorKind::IncompatibleTypes,
        ErrorKind::WrongArity,
        ErrorKind::NotAFunction,
        ErrorKind::UnknownShape,
        ErrorKind::UnresolvedNamedShape,
        ErrorKind::NotADeclaration,
        ErrorKind::UnexpectedCharacter,
        ErrorKind::UnterminatedString,
        ErrorKind::UnexpectedToken,
        ErrorKind::UnknownName,
        ErrorKind::TooManyLocals,
        ErrorKind::TooManyConstants,
        ErrorKind::TooManyArguments,
        ErrorKind::BlockTooLong,
        ErrorKind::StackUnderflow,
        ErrorKind::BadIndex,
        ErrorKind::BadJump,
        ErrorKind::BranchOnNonBoolean,
        ErrorKind::UnknownFunction,
        ErrorKind::CallOfNonFunction,
        ErrorKind::NativeArity,
        ErrorKind::NativeDomain,
        ErrorKind::MissingReturn,
        ErrorKind::ErrorInstruction,
        ErrorKind::UnexpectedAnswer,
        ErrorKind::NoActivation,
    ];
    let mut seen: Vec<&str> = Vec::new();
    for kind in kinds {
        let text = kind.text();
        assert!(!text.is_empty());
        assert!(!seen.contains(&text));
        assert_eq!(LangError::of(kind).message(), text);
        seen.push(text);
    }
    assert_eq!(ErrorKind::UndeclaredVariable.text(), "Undeclared variable");
    assert_eq!(ErrorKind::BranchOnNonBoolean.text(), "Invalid bytecode. Attempt to Branch on non boolean");
}
