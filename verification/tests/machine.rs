use let_lang::bytecode::{BitApplication, BitFunction, BitModule, BitPackage, FunctionRef, Instruction};
use let_lang::error::ErrorKind;
use let_lang::interpreter::{Answer, Control, Execution, FloatOp, Frame, Machine, NativeOp, RunFunction};
use let_lang::lib_core::{call_native, core_runtime};
use let_lang::runtime::{FunctionHandle, ListValue, Value};
use let_lang::shapes::{shape_boolean, shape_float, shape_function, shape_list, shape_string, Shape};
use let_lang::support::NameMap;
use std::rc::Rc;

fn reference(name: &str, arity: usize) -> FunctionRef {
    FunctionRef {
        package: String::from("p"),
        module: String::from("m"),
        name: String::from(name),
        shape: shape_function(vec![shape_float(); arity], shape_float()),
    }
}

fn list_ref(name: &str) -> FunctionRef {
    FunctionRef {
        package: String::from("Core"),
        module: String::from("List"),
        name: String::from(name),
        shape: shape_function(vec![], shape_float()),
    }
}

fn core_ref(name: &str) -> FunctionRef {
    FunctionRef {
        package: String::from("Core"),
        module: String::from("Core"),
        name: String::from(name),
        shape: shape_function(vec![shape_float(), shape_float()], shape_float()),
    }
}

struct Source {
    strings: Vec<String>,
    refs: Vec<FunctionRef>,
    functions: Vec<(String, u16, Vec<Instruction>)>,
}

fn machine(source: Source) -> Machine {
    let mut functions: NameMap<RunFunction> = NameMap::new();
    for (name, max_locals, body) in source.functions {
        let f = BitFunction { func_ref: reference(&name, 0), max_locals, body, source: vec![] };
        functions.insert(name, f.wrap());
    }
    let module = BitModule {
        string_constants: source.strings,
        function_refs: source.refs,
        functions,
        shape_refs: vec![],
    };
    let mut package = BitPackage::new();
    package.modules.insert(String::from("m"), module);
    let mut app = BitApplication::new(reference("main", 0));
    app.packages.insert(String::from("p"), package);
    Machine::new(app)
}

fn single(body: Vec<Instruction>, max_locals: u16) -> Machine {
    machine(Source { strings: vec![], refs: vec![], functions: vec![(String::from("main"), max_locals, body)] })
}

fn compute(op: FloatOp, left: u64, right: u64) -> Answer {
    let l = f64::from_bits(left);
    let r = f64::from_bits(right);
    match op {
        FloatOp::Add => Answer::Number((l + r).to_bits()),
        FloatOp::Subtract => Answer::Number((l - r).to_bits()),
        FloatOp::Multiply => Answer::Number((l * r).to_bits()),
        FloatOp::Divide => Answer::Number((l / r).to_bits()),
        FloatOp::Equal => Answer::Truth(l == r),
        FloatOp::NotEqual => Answer::Truth(l != r),
        FloatOp::Less => Answer::Truth(l < r),
        FloatOp::Greater => Answer::Truth(l > r),
        FloatOp::LessEqual => Answer::Truth(l <= r),
        FloatOp::GreaterEqual => Answer::Truth(l >= r),
    }
}

fn drive(machine: &Machine, start: Execution) -> Result<Value, ErrorKind> {
    let mut run = start;
    loop {
        run = machine.run(run, 64);
        let Execution { frames, control } = run;
        match control {
            Control::Finished { value } => return Ok(value),
            Control::Failed { error } => return Err(error.kind),
            Control::Await { op, left, right } => {
                let waiting = Execution { frames, control: Control::Await { op, left, right } };
                run = Machine::answer(waiting, compute(op, left, right));
            }
            other => run = Execution { frames, control: other },
        }
    }
}

fn run(body: Vec<Instruction>, max_locals: u16) -> Result<Value, ErrorKind> {
    let m = single(body, max_locals);
    drive(&m, m.run_main(0))
}

fn float(value: f64) -> Instruction {
    Instruction::LoadConstFloat { value: value.to_bits() }
}

fn show(value: &Result<Value, ErrorKind>) -> String {
    match value {
        Ok(Value::Float(bits)) => format!("Float({})", f64::from_bits(*bits)),
        other => format!("{:?}", other),
    }
}

fn as_number(value: Result<Value, ErrorKind>) -> f64 {
    match value {
        Ok(Value::Float(bits)) => f64::from_bits(bits),
        other => panic!("no number came back: {:?}", other),
    }
}

#[test]
fn constants_are_pushed_and_the_top_is_returned() {
    assert_eq!(as_number(run(vec![float(1.5), Instruction::Return], 0)), 1.5);
    assert!(matches!(run(vec![Instruction::LoadConstNull, Instruction::Return], 0), Ok(Value::Null)));
    assert!(matches!(run(vec![Instruction::LoadConstTrue, Instruction::Return], 0), Ok(Value::True)));
    assert!(matches!(run(vec![Instruction::LoadConstFalse, Instruction::Return], 0), Ok(Value::False)));
    assert_eq!(as_number(run(vec![float(1.0), float(2.0), Instruction::Return], 0)), 2.0);
}

#[test]
fn string_and_function_constants_come_from_the_module_tables() {
    let m = machine(Source {
        strings: vec![String::from("zero"), String::from("one")],
        refs: vec![reference("helper", 2)],
        functions: vec![
            (String::from("main"), 0, vec![Instruction::LoadConstString { const_id: 1 }, Instruction::Return]),
            (String::from("pick"), 0, vec![Instruction::LoadConstFunction { const_id: 0 }, Instruction::Return]),
            (String::from("bad"), 0, vec![Instruction::LoadConstString { const_id: 2 }, Instruction::Return]),
            (String::from("worse"), 0, vec![Instruction::LoadConstFunction { const_id: 1 }, Instruction::Return]),
        ],
    });
    match drive(&m, m.run_main(0)) {
        Ok(Value::String(s)) => assert_eq!(s.as_str(), "one"),
        other => panic!("no string came back: {:?}", other),
    }
    match drive(&m, m.execute(reference("pick", 0), vec![], 0)) {
        Ok(Value::Function(handle)) => match &*handle {
            FunctionHandle::Plain(f) => assert_eq!(f.pretty(), "p::m.helper"),
            other => panic!("the handle is not plain: {:?}", other),
        },
        other => panic!("no function came back: {:?}", other),
    }
    assert_eq!(drive(&m, m.execute(reference("bad", 0), vec![], 0)).unwrap_err(), ErrorKind::BadIndex);
    assert_eq!(drive(&m, m.execute(reference("worse", 0), vec![], 0)).unwrap_err(), ErrorKind::BadIndex);
}

#[test]
fn stack_operations_work_on_the_top() {
    assert_eq!(as_number(run(vec![float(1.0), float(2.0), Instruction::Pop, Instruction::Return], 0)), 1.0);
    assert_eq!(as_number(run(vec![float(1.0), float(2.0), Instruction::Swap, Instruction::Return], 0)), 1.0);
    assert_eq!(
        as_number(run(vec![float(1.0), float(2.0), Instruction::Swap, Instruction::Pop, Instruction::Return], 0)),
        2.0
    );
    assert_eq!(
        as_number(run(vec![float(7.0), Instruction::Duplicate, Instruction::Pop, Instruction::Return], 0)),
        7.0
    );
    assert_eq!(as_number(run(vec![Instruction::NoOp, float(3.0), Instruction::Debug, Instruction::Return], 0)), 3.0);
}

#[test]
fn too_few_values_on_the_stack_are_an_error() {
    for body in [
        vec![Instruction::Pop],
        vec![Instruction::Duplicate],
        vec![Instruction::Swap],
        vec![float(1.0), Instruction::Swap],
        vec![Instruction::Return],
        vec![Instruction::StoreValue { local: 0 }],
        vec![Instruction::Branch { jump: 0 }],
        vec![Instruction::BuildRecursiveFunction],
        vec![Instruction::CallDynamic { param_count: 0 }],
        vec![float(1.0), Instruction::CallDynamic { param_count: 1 }],
    ] {
        assert_eq!(show(&run(body, 1)), "Err(StackUnderflow)");
    }
}

#[test]
fn locals_are_stored_and_loaded_by_slot() {
    let body = vec![
        float(5.0),
        Instruction::StoreValue { local: 1 },
        float(6.0),
        Instruction::StoreValue { local: 0 },
        Instruction::LoadValue { local: 1 },
        Instruction::Return,
    ];
    assert_eq!(as_number(run(body, 2)), 5.0);
    assert!(matches!(run(vec![Instruction::LoadValue { local: 1 }, Instruction::Return], 2), Ok(Value::Null)));
}

#[test]
fn a_slot_beyond_the_locals_is_an_error() {
    assert_eq!(show(&run(vec![Instruction::LoadValue { local: 2 }, Instruction::Return], 2)), "Err(BadIndex)");
    assert_eq!(show(&run(vec![float(1.0), Instruction::StoreValue { local: 0 }], 0)), "Err(BadIndex)");
}

#[test]
fn locals_are_cut_or_filled_to_the_number_of_slots() {
    let m = machine(Source {
        strings: vec![],
        refs: vec![],
        functions: vec![
            (String::from("main"), 0, vec![Instruction::Return]),
            (String::from("second"), 2, vec![Instruction::LoadValue { local: 1 }, Instruction::Return]),
            (String::from("fourth"), 4, vec![Instruction::LoadValue { local: 3 }, Instruction::Return]),
            (String::from("third"), 2, vec![Instruction::LoadValue { local: 2 }, Instruction::Return]),
        ],
    });
    let args = || vec![Value::Float(1.0f64.to_bits()), Value::Float(2.0f64.to_bits()), Value::Float(3.0f64.to_bits())];
    assert_eq!(as_number(drive(&m, m.execute(reference("second", 0), args(), 0))), 2.0);
    assert!(matches!(drive(&m, m.execute(reference("fourth", 0), args(), 0)), Ok(Value::Null)));
    assert_eq!(drive(&m, m.execute(reference("third", 0), args(), 0)).unwrap_err(), ErrorKind::BadIndex);
}

#[test]
fn a_branch_falls_through_on_true_and_jumps_on_false() {
    let body = |test: Instruction| {
        vec![
            test,
            Instruction::Branch { jump: 2 },
            float(10.0),
            Instruction::Return,
            float(20.0),
            Instruction::Return,
        ]
    };
    assert_eq!(as_number(run(body(Instruction::LoadConstTrue), 0)), 10.0);
    assert_eq!(as_number(run(body(Instruction::LoadConstFalse), 0)), 20.0);
    assert_eq!(show(&run(body(float(1.0)), 0)), "Err(BranchOnNonBoolean)");
    assert_eq!(show(&run(body(Instruction::LoadConstNull), 0)), "Err(BranchOnNonBoolean)");
}

#[test]
fn a_jump_counts_from_the_instruction_behind_it() {
    let forward = vec![Instruction::Jump { jump: 2 }, float(1.0), Instruction::Return, float(2.0), Instruction::Return];
    assert_eq!(as_number(run(forward, 0)), 2.0);
    let none = vec![Instruction::Jump { jump: 0 }, float(1.0), Instruction::Return];
    assert_eq!(as_number(run(none, 0)), 1.0);
    let back = vec![
        Instruction::Jump { jump: 2 },
        float(8.0),
        Instruction::Return,
        Instruction::Jump { jump: -3 },
    ];
    assert_eq!(as_number(run(back, 0)), 8.0);
}

#[test]
fn a_jump_before_the_start_is_an_error_and_one_past_the_end_falls_off() {
    assert_eq!(show(&run(vec![Instruction::Jump { jump: -2 }], 0)), "Err(BadJump)");
    assert_eq!(show(&run(vec![Instruction::LoadConstFalse, Instruction::Branch { jump: -3 }], 0)), "Err(BadJump)");
    assert_eq!(show(&run(vec![Instruction::Jump { jump: 5 }, Instruction::Return], 0)), "Err(MissingReturn)");
    assert_eq!(show(&run(vec![Instruction::Jump { jump: i32::MAX }], 0)), "Err(MissingReturn)");
}

#[test]
fn falling_off_the_end_and_the_error_instruction_are_fatal() {
    assert_eq!(show(&run(vec![], 0)), "Err(MissingReturn)");
    assert_eq!(show(&run(vec![float(1.0)], 0)), "Err(MissingReturn)");
    assert_eq!(show(&run(vec![float(1.0), Instruction::Error, Instruction::Return], 0)), "Err(ErrorInstruction)");
}

#[test]
fn an_unknown_function_is_an_error() {
    let m = single(vec![Instruction::Return], 0);
    assert_eq!(drive(&m, m.execute(reference("nowhere", 0), vec![], 0)).unwrap_err(), ErrorKind::UnknownFunction);
    let mut elsewhere = reference("main", 0);
    elsewhere.module = String::from("other");
    assert_eq!(drive(&m, m.execute(elsewhere, vec![], 0)).unwrap_err(), ErrorKind::UnknownFunction);
    let mut abroad = reference("main", 0);
    abroad.package = String::from("other");
    assert_eq!(drive(&m, m.execute(abroad, vec![], 0)).unwrap_err(), ErrorKind::UnknownFunction);
}

fn calling() -> Machine {
    machine(Source {
        strings: vec![],
        refs: vec![reference("second_of_two", 2), core_ref("-"), reference("unshaped", 0)],
        functions: vec![
            (
                String::from("main"),
                0,
                vec![float(1.0), float(2.0), float(3.0), Instruction::CallStatic { func_id: 0 }, Instruction::Swap, Instruction::Pop, Instruction::Return],
            ),
            (String::from("second_of_two"), 2, vec![Instruction::LoadValue { local: 1 }, Instruction::Return]),
            (
                String::from("minus"),
                0,
                vec![float(10.0), float(4.0), Instruction::CallStatic { func_id: 1 }, Instruction::Return],
            ),
            (String::from("short"), 0, vec![float(1.0), Instruction::CallStatic { func_id: 0 }, Instruction::Return]),
            (String::from("missing"), 0, vec![Instruction::CallStatic { func_id: 7 }, Instruction::Return]),
        ],
    })
}

#[test]
fn a_static_call_takes_as_many_arguments_as_the_shape_has_in_their_order() {
    let m = calling();
    assert_eq!(as_number(drive(&m, m.run_main(0))), 3.0);
    assert_eq!(as_number(drive(&m, m.execute(reference("minus", 0), vec![], 0))), 6.0);
    assert_eq!(drive(&m, m.execute(reference("short", 0), vec![], 0)).unwrap_err(), ErrorKind::StackUnderflow);
    assert_eq!(drive(&m, m.execute(reference("missing", 0), vec![], 0)).unwrap_err(), ErrorKind::BadIndex);
}

#[test]
fn a_static_call_of_a_reference_without_function_shape_is_an_error() {
    let mut unshaped = reference("second_of_two", 0);
    unshaped.shape = shape_float();
    let m = machine(Source {
        strings: vec![],
        refs: vec![unshaped],
        functions: vec![(String::from("main"), 0, vec![Instruction::CallStatic { func_id: 0 }, Instruction::Return])],
    });
    assert_eq!(drive(&m, m.run_main(0)).unwrap_err(), ErrorKind::CallOfNonFunction);
}

#[test]
fn a_call_before_a_return_takes_the_place_of_its_caller() {
    let m = machine(Source {
        strings: vec![],
        refs: vec![reference("callee", 0)],
        functions: vec![
            (String::from("main"), 0, vec![Instruction::CallStatic { func_id: 0 }, Instruction::Return]),
            (String::from("waits"), 0, vec![Instruction::CallStatic { func_id: 0 }, Instruction::NoOp, Instruction::Return]),
            (String::from("callee"), 0, vec![float(4.0), Instruction::Return]),
        ],
    });
    let entered = m.run(m.run_main(0), 2);
    assert!(matches!(entered.control, Control::Enter { .. }));
    assert_eq!(entered.frames.len(), 0);
    let inside = m.run(entered, 1);
    assert_eq!(inside.frames.len(), 1);
    assert_eq!(as_number(drive(&m, inside)), 4.0);
    let waiting = m.run(m.execute(reference("waits", 0), vec![], 0), 3);
    assert_eq!(waiting.frames.len(), 2);
    match &waiting.frames[0] {
        Frame::Code { func_ref, pc, .. } => {
            assert_eq!(func_ref.name, "waits");
            assert_eq!(*pc, 1);
        }
        other => panic!("the caller is no code: {:?}", other),
    }
    assert_eq!(as_number(drive(&m, waiting)), 4.0);
}

fn closures() -> Machine {
    machine(Source {
        strings: vec![],
        refs: vec![reference("third_local", 1), reference("first_local", 1)],
        functions: vec![
            (
                String::from("main"),
                0,
                vec![
                    float(1.0),
                    float(2.0),
                    Instruction::BuildClosure { param_count: 2, func_id: 0 },
                    float(3.0),
                    Instruction::CallDynamic { param_count: 1 },
                    Instruction::Return,
                ],
            ),
            (String::from("third_local"), 3, vec![Instruction::LoadValue { local: 2 }, Instruction::Return]),
            (String::from("first_local"), 3, vec![Instruction::LoadValue { local: 0 }, Instruction::Return]),
            (
                String::from("captured"),
                0,
                vec![
                    float(1.0),
                    float(2.0),
                    Instruction::BuildClosure { param_count: 2, func_id: 1 },
                    float(3.0),
                    Instruction::CallDynamic { param_count: 1 },
                    Instruction::Return,
                ],
            ),
            (
                String::from("recursive"),
                0,
                vec![
                    Instruction::LoadConstFunction { const_id: 1 },
                    Instruction::BuildRecursiveFunction,
                    float(3.0),
                    Instruction::CallDynamic { param_count: 1 },
                    Instruction::Return,
                ],
            ),
            (String::from("no_handle"), 0, vec![float(1.0), float(3.0), Instruction::CallDynamic { param_count: 1 }, Instruction::Return]),
            (String::from("no_inner"), 0, vec![float(1.0), Instruction::BuildRecursiveFunction, Instruction::Return]),
            (String::from("few"), 0, vec![float(1.0), Instruction::BuildClosure { param_count: 2, func_id: 0 }, Instruction::Return]),
            (String::from("no_ref"), 0, vec![Instruction::BuildClosure { param_count: 0, func_id: 9 }, Instruction::Return]),
        ],
    })
}

#[test]
fn a_closure_puts_what_it_captured_before_the_arguments() {
    let m = closures();
    assert_eq!(as_number(drive(&m, m.run_main(0))), 3.0);
    assert_eq!(as_number(drive(&m, m.execute(reference("captured", 0), vec![], 0))), 1.0);
}

#[test]
fn a_recursive_handle_puts_itself_first() {
    let m = closures();
    match drive(&m, m.execute(reference("recursive", 0), vec![], 0)) {
        Ok(Value::Function(handle)) => assert!(matches!(&*handle, FunctionHandle::Recursive { .. })),
        other => panic!("the first local is no recursive handle: {:?}", other),
    }
}

#[test]
fn building_and_calling_handles_checks_what_is_on_the_stack() {
    let m = closures();
    assert_eq!(drive(&m, m.execute(reference("no_handle", 0), vec![], 0)).unwrap_err(), ErrorKind::CallOfNonFunction);
    assert_eq!(drive(&m, m.execute(reference("no_inner", 0), vec![], 0)).unwrap_err(), ErrorKind::CallOfNonFunction);
    assert_eq!(drive(&m, m.execute(reference("few", 0), vec![], 0)).unwrap_err(), ErrorKind::StackUnderflow);
    assert_eq!(drive(&m, m.execute(reference("no_ref", 0), vec![], 0)).unwrap_err(), ErrorKind::BadIndex);
}

fn one() -> Value {
    Value::Float(1.0f64.to_bits())
}

fn names(values: &Vec<Value>) -> Vec<String> {
    values
        .iter()
        .map(|v| match v {
            Value::Float(bits) => format!("{}", f64::from_bits(*bits)),
            Value::Function(h) => match &**h {
                FunctionHandle::Plain(_) => String::from("plain"),
                FunctionHandle::Closure { .. } => String::from("closure"),
                FunctionHandle::Recursive { .. } => String::from("recursive"),
            },
            Value::Null => String::from("null"),
            _ => String::from("other"),
        })
        .collect()
}

#[test]
fn handles_prepare_the_locals_of_the_call() {
    let plain = FunctionHandle::Plain(reference("f", 1));
    let (target, locals) = plain.with(vec![one()]);
    assert_eq!(target.name, "f");
    assert_eq!(names(&locals), vec!["1"]);
    let closure = FunctionHandle::Closure {
        func: reference("g", 1),
        captured: vec![Value::Float(8.0f64.to_bits()), Value::Null],
    };
    let (target, locals) = closure.with(vec![one()]);
    assert_eq!(target.name, "g");
    assert_eq!(names(&locals), vec!["8", "null", "1"]);
    let (_, locals) = closure.with(vec![]);
    assert_eq!(names(&locals), vec!["8", "null"]);
    let recursive = FunctionHandle::Recursive { inner: Rc::new(plain) };
    let (target, locals) = recursive.with(vec![one()]);
    assert_eq!(target.name, "f");
    assert_eq!(names(&locals), vec!["recursive", "1"]);
}

#[test]
fn handles_compose_by_nesting() {
    let closure = FunctionHandle::Closure { func: reference("g", 1), captured: vec![Value::Float(8.0f64.to_bits())] };
    let recursive = FunctionHandle::Recursive { inner: Rc::new(closure) };
    let (target, locals) = recursive.with(vec![one()]);
    assert_eq!(target.name, "g");
    assert_eq!(names(&locals), vec!["8", "recursive", "1"]);
    let twice = FunctionHandle::Recursive { inner: Rc::new(recursive) };
    let (_, locals) = twice.with(vec![]);
    assert_eq!(names(&locals), vec!["8", "recursive", "recursive"]);
}

#[test]
fn arithmetic_waits_for_the_host_and_takes_its_answer() {
    let m = single(vec![Instruction::Return], 0);
    let two = || Value::Float(2.0f64.to_bits());
    let asked = m.execute(core_ref("/"), vec![one(), two()], 10);
    match asked.control {
        Control::Await { op, left, right } => {
            assert_eq!(op, FloatOp::Divide);
            assert_eq!((f64::from_bits(left), f64::from_bits(right)), (1.0, 2.0));
        }
        ref other => panic!("the machine does not wait: {:?}", other),
    }
    let still = m.run(asked, 10);
    assert!(matches!(still.control, Control::Await { .. }));
    let answered = Machine::answer(still, Answer::Number(0.5f64.to_bits()));
    assert_eq!(as_number(drive(&m, answered)), 0.5);
    for (name, wanted) in [("+", 3.0), ("-", -1.0), ("*", 2.0), ("/", 0.5)] {
        assert_eq!(as_number(drive(&m, m.execute(core_ref(name), vec![one(), two()], 0))), wanted);
    }
    for (name, wanted) in [("==", false), ("!=", true), ("<", true), (">", false), ("<=", true), (">=", false)] {
        let result = drive(&m, m.execute(core_ref(name), vec![one(), two()], 0));
        assert_eq!(matches!(result, Ok(Value::True)), wanted);
        assert_eq!(matches!(result, Ok(Value::False)), !wanted);
    }
}

#[test]
fn arithmetic_checks_number_and_kind_of_its_arguments() {
    let m = single(vec![Instruction::Return], 0);
    assert_eq!(drive(&m, m.execute(core_ref("+"), vec![one()], 0)).unwrap_err(), ErrorKind::NativeArity);
    assert_eq!(drive(&m, m.execute(core_ref("+"), vec![one(), one(), one()], 0)).unwrap_err(), ErrorKind::NativeArity);
    assert_eq!(drive(&m, m.execute(core_ref("+"), vec![one(), Value::True], 0)).unwrap_err(), ErrorKind::NativeDomain);
    assert_eq!(drive(&m, m.execute(core_ref("<"), vec![Value::Null, one()], 0)).unwrap_err(), ErrorKind::NativeDomain);
}

#[test]
fn an_answer_must_fit_the_operation_that_waits() {
    let m = single(vec![Instruction::Return], 0);
    let sum = m.execute(core_ref("+"), vec![one(), one()], 10);
    let wrong = Machine::answer(sum, Answer::Truth(true));
    assert!(matches!(wrong.control, Control::Failed { ref error } if error.kind == ErrorKind::NativeDomain));
    let test = m.execute(core_ref("=="), vec![one(), one()], 10);
    let wrong = Machine::answer(test, Answer::Number(0));
    assert!(matches!(wrong.control, Control::Failed { ref error } if error.kind == ErrorKind::NativeDomain));
    let idle = Machine::start(reference("main", 0), vec![]);
    let unasked = Machine::answer(idle, Answer::Number(0));
    assert!(matches!(unasked.control, Control::Failed { ref error } if error.kind == ErrorKind::UnexpectedAnswer));
}

#[test]
fn a_run_stops_when_its_steps_are_used_up_and_goes_on_later() {
    let m = single(vec![float(1.0), float(2.0), Instruction::Pop, Instruction::Return], 0);
    let start = m.run_main(0);
    assert!(matches!(start.control, Control::Enter { .. }));
    assert!(start.is_active());
    let entered = m.run(start, 1);
    assert!(matches!(entered.control, Control::Execute));
    assert_eq!(entered.frames.len(), 1);
    let later = m.run(entered, 3);
    match &later.frames[0] {
        Frame::Code { pc, stack, .. } => {
            assert_eq!(*pc, 3);
            assert_eq!(stack.len(), 1);
        }
        other => panic!("the function in progress is no code: {:?}", other),
    }
    let returned = m.step(later);
    assert!(matches!(returned.control, Control::Deliver { .. }));
    let done = m.step(returned);
    assert!(matches!(done.control, Control::Finished { .. }));
    assert!(!done.is_active());
    let same = m.run(done, 100);
    assert_eq!(as_number(drive(&m, same)), 1.0);
}

#[test]
fn a_step_with_nothing_in_progress_fails() {
    let m = single(vec![Instruction::Return], 0);
    let idle = Execution { frames: vec![], control: Control::Execute };
    assert!(matches!(m.step(idle).control, Control::Failed { ref error } if error.kind == ErrorKind::NoActivation));
}

fn numbers(values: &[f64]) -> Value {
    Value::List(Rc::new(ListValue {
        contents: values.iter().map(|v| Value::Float(v.to_bits())).collect(),
        shape: shape_float(),
    }))
}

fn items(value: &Value) -> Vec<f64> {
    match value {
        Value::List(list) => list
            .contents
            .iter()
            .map(|v| match v {
                Value::Float(bits) => f64::from_bits(*bits),
                other => panic!("the list holds {:?}", other),
            })
            .collect(),
        other => panic!("no list came back: {:?}", other),
    }
}

fn lists() -> Machine {
    machine(Source {
        strings: vec![],
        refs: vec![core_ref("*"), core_ref("+")],
        functions: vec![
            (String::from("main"), 0, vec![Instruction::Return]),
            (
                String::from("double"),
                1,
                vec![Instruction::LoadValue { local: 0 }, float(2.0), Instruction::CallStatic { func_id: 0 }, Instruction::Return],
            ),
            (
                String::from("add"),
                2,
                vec![
                    Instruction::LoadValue { local: 0 },
                    Instruction::LoadValue { local: 1 },
                    Instruction::CallStatic { func_id: 1 },
                    Instruction::Return,
                ],
            ),
            (String::from("truth"), 2, vec![Instruction::LoadConstTrue, Instruction::Return]),
        ],
    })
}

fn handle(name: &str, arity: usize) -> Value {
    Value::Function(Rc::new(FunctionHandle::Plain(reference(name, arity))))
}

#[test]
fn list_new_gives_the_empty_list_of_numbers() {
    let m = lists();
    let made = drive(&m, m.execute(list_ref("new"), vec![], 0)).unwrap();
    assert!(items(&made).is_empty());
    match &made {
        Value::List(list) => assert_eq!(list.shape, shape_float()),
        _ => panic!("no list"),
    }
    assert_eq!(drive(&m, m.execute(list_ref("new"), vec![one()], 0)).unwrap_err(), ErrorKind::NativeArity);
}

#[test]
fn list_append_gives_a_new_list_and_leaves_the_old_one() {
    let m = lists();
    let old = numbers(&[1.0, 2.0]);
    let grown = drive(&m, m.execute(list_ref("append"), vec![old.clone(), Value::Float(3.0f64.to_bits())], 0)).unwrap();
    assert_eq!(items(&grown), vec![1.0, 2.0, 3.0]);
    assert_eq!(items(&old), vec![1.0, 2.0]);
    let again = drive(&m, m.execute(list_ref("append"), vec![old.clone(), Value::Float(9.0f64.to_bits())], 0)).unwrap();
    assert_eq!(items(&again), vec![1.0, 2.0, 9.0]);
    assert_eq!(items(&grown), vec![1.0, 2.0, 3.0]);
}

#[test]
fn list_append_checks_its_arguments() {
    let m = lists();
    assert_eq!(drive(&m, m.execute(list_ref("append"), vec![numbers(&[])], 0)).unwrap_err(), ErrorKind::NativeArity);
    assert_eq!(drive(&m, m.execute(list_ref("append"), vec![one(), one()], 0)).unwrap_err(), ErrorKind::NativeDomain);
    assert_eq!(
        drive(&m, m.execute(list_ref("append"), vec![numbers(&[]), Value::True], 0)).unwrap_err(),
        ErrorKind::NativeDomain
    );
}

#[test]
fn list_map_calls_the_mapper_on_each_item_in_order() {
    let m = lists();
    let mapped = drive(&m, m.execute(list_ref("map"), vec![numbers(&[1.0, 2.5, 4.0]), handle("double", 1)], 0)).unwrap();
    assert_eq!(items(&mapped), vec![2.0, 5.0, 8.0]);
    let none = drive(&m, m.execute(list_ref("map"), vec![numbers(&[]), handle("double", 1)], 0)).unwrap();
    assert!(items(&none).is_empty());
    let one_item = drive(&m, m.execute(list_ref("map"), vec![numbers(&[7.0]), handle("double", 1)], 0)).unwrap();
    assert_eq!(items(&one_item), vec![14.0]);
}

#[test]
fn list_map_checks_its_arguments() {
    let m = lists();
    assert_eq!(drive(&m, m.execute(list_ref("map"), vec![numbers(&[])], 0)).unwrap_err(), ErrorKind::NativeArity);
    assert_eq!(drive(&m, m.execute(list_ref("map"), vec![one(), handle("double", 1)], 0)).unwrap_err(), ErrorKind::NativeDomain);
    assert_eq!(drive(&m, m.execute(list_ref("map"), vec![numbers(&[1.0]), one()], 0)).unwrap_err(), ErrorKind::NativeDomain);
    assert_eq!(
        drive(&m, m.execute(list_ref("map"), vec![numbers(&[1.0]), handle("nowhere", 1)], 0)).unwrap_err(),
        ErrorKind::UnknownFunction
    );
}

#[test]
fn list_fold_hands_the_sum_so_far_and_each_item_to_the_reducer() {
    let m = lists();
    let sum = drive(&m, m.execute(list_ref("fold"), vec![numbers(&[1.0, 2.0, 3.0, 4.0]), Value::Float(0.0f64.to_bits()), handle("add", 2)], 0));
    assert_eq!(as_number(sum), 10.0);
    let start_only = drive(&m, m.execute(list_ref("fold"), vec![numbers(&[]), Value::Float(5.0f64.to_bits()), handle("add", 2)], 0));
    assert_eq!(as_number(start_only), 5.0);
    let single_item = drive(&m, m.execute(list_ref("fold"), vec![numbers(&[2.0]), Value::Float(5.0f64.to_bits()), handle("add", 2)], 0));
    assert_eq!(as_number(single_item), 7.0);
}

#[test]
fn list_fold_checks_its_arguments_and_the_reducer_result() {
    let m = lists();
    let zero = || Value::Float(0.0f64.to_bits());
    assert_eq!(drive(&m, m.execute(list_ref("fold"), vec![numbers(&[]), zero()], 0)).unwrap_err(), ErrorKind::NativeArity);
    assert_eq!(drive(&m, m.execute(list_ref("fold"), vec![zero(), zero(), handle("add", 2)], 0)).unwrap_err(), ErrorKind::NativeDomain);
    assert_eq!(drive(&m, m.execute(list_ref("fold"), vec![numbers(&[]), Value::Null, handle("add", 2)], 0)).unwrap_err(), ErrorKind::NativeDomain);
    assert_eq!(drive(&m, m.execute(list_ref("fold"), vec![numbers(&[]), zero(), zero()], 0)).unwrap_err(), ErrorKind::NativeDomain);
    assert_eq!(
        drive(&m, m.execute(list_ref("fold"), vec![numbers(&[1.0, 2.0]), zero(), handle("truth", 2)], 0)).unwrap_err(),
        ErrorKind::NativeDomain
    );
}

#[test]
fn natives_can_be_called_without_a_machine() {
    let made = call_native(NativeOp::ListAppend, vec![], vec![numbers(&[1.0]), one()]);
    match made.control {
        Control::Deliver { value } => assert_eq!(items(&value), vec![1.0, 1.0]),
        other => panic!("append did not hand back: {:?}", other),
    }
    let asked = call_native(NativeOp::Arithmetic(FloatOp::Less), vec![], vec![one(), one()]);
    assert!(matches!(asked.control, Control::Await { op: FloatOp::Less, .. }));
}

#[test]
fn the_core_package_holds_the_operators_and_the_list_functions() {
    let core = core_runtime();
    assert_eq!(core.modules.names, vec!["Core", "List"]);
    let operators = &core.modules.values[0];
    assert_eq!(operators.functions.names, vec!["+", "-", "*", "/", "==", "!=", ">", ">=", "<", "<="]);
    let functions = &core.modules.values[1];
    assert_eq!(functions.functions.names, vec!["new", "append", "map", "fold"]);
    let shape_of = |module: &BitModule, name: &str| -> Shape {
        match module.functions.get(&String::from(name)).unwrap() {
            RunFunction::NativeFunction(native) => {
                assert_eq!(native.func_ref.package, "Core");
                assert_eq!(native.func_ref.name, name);
                native.func_ref.shape.clone()
            }
            RunFunction::BitFunction(_) => panic!("a core function is compiled code"),
        }
    };
    let pair = vec![shape_float(), shape_float()];
    assert_eq!(shape_of(operators, "*"), shape_function(pair.clone(), shape_float()));
    assert_eq!(shape_of(operators, ">="), shape_function(pair.clone(), shape_boolean()));
    let list = shape_list(shape_float());
    assert_eq!(shape_of(functions, "new"), shape_function(vec![], list.clone()));
    assert_eq!(shape_of(functions, "append"), shape_function(vec![list.clone(), shape_float()], list.clone()));
    assert_eq!(
        shape_of(functions, "map"),
        shape_function(vec![list.clone(), shape_function(vec![shape_float()], shape_float())], list.clone())
    );
    assert_eq!(
        shape_of(functions, "fold"),
        shape_function(vec![list, shape_float(), shape_function(pair, shape_float())], shape_float())
    );
    assert_ne!(shape_string(), shape_float());
}

#[test]
fn the_machine_puts_the_core_into_the_application() {
    let m = single(vec![Instruction::Return], 0);
    assert_eq!(m.app.packages.names, vec!["p", "Core"]);
    assert!(m.app.lookup_function(&core_ref("+")).is_ok());
    assert!(m.app.lookup_module(&list_ref("anything")).is_ok());
    assert_eq!(m.app.lookup_function(&list_ref("anything")).unwrap_err().kind, ErrorKind::UnknownFunction);
    let module = m.app.lookup_module(&reference("main", 0)).unwrap();
    assert_eq!(module.lookup_string(0).unwrap_err().kind, ErrorKind::BadIndex);
    assert_eq!(module.lookup_function(0).unwrap_err().kind, ErrorKind::BadIndex);
    assert_eq!(module.lookup_shape(0).unwrap_err().kind, ErrorKind::BadIndex);
}

#[test]
fn list_values_start_empty_and_copy_their_contents() {
    let empty = ListValue::new(shape_float());
    assert!(empty.contents.is_empty());
    assert!(empty.copy_contents().is_empty());
    let held = ListValue { contents: vec![one(), Value::Null], shape: shape_float() };
    assert_eq!(names(&held.copy_contents()), vec!["1", "null"]);
    assert_eq!(held.contents.len(), 2);
}
