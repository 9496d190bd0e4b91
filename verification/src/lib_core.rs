use vstd::prelude::*;
use std::rc::Rc;
use crate::bytecode::{BitModule, BitModuleView, BitPackage, FunctionRef, FunctionRefView};
use crate::error::ErrorKind;
use crate::interpreter::{
    Control,
    ControlView,
    Execution,
    ExecutionView,
    FloatOp,
    Frame,
    FrameView,
    NativeFunction,
    NativeFunctionView,
    NativeOp,
    RunFunction,
    RunFunctionView,
    fail,
    failed,
    with_spec,
};
use crate::runtime::{FunctionHandle, HandleView, ListValue, ListView, Value, ValueView};
use crate::shapes::{
    BaseShapeKind,
    Shape,
    ShapeView,
    base,
    function_of,
    list_of,
    shape_boolean,
    shape_float,
    shape_function,
    shape_list,
};
use crate::support::{views, group_views, NameMap, Table};

verus! {

/// The run after a built-in function was called with `args`.
pub open spec fn native_spec(op: NativeOp, frames: Seq<FrameView>, args: Seq<ValueView>) -> ExecutionView {
    match op {
        NativeOp::Arithmetic(fop) => if args.len() != 2 {
            failed(ErrorKind::NativeArity)
        } else {
            match (args[0], args[1]) {
                (ValueView::Float(left), ValueView::Float(right)) => ExecutionView {
                    frames,
                    control: ControlView::Await { op: fop, left, right },
                },
                _ => failed(ErrorKind::NativeDomain),
            }
        },
        NativeOp::ListNew => if args.len() != 0 {
            failed(ErrorKind::NativeArity)
        } else {
            ExecutionView {
                frames,
                control: ControlView::Deliver {
                    value: ValueView::List(
                        ListView { contents: Seq::empty(), shape: base(BaseShapeKind::Float) },
                    ),
                },
            }
        },
        NativeOp::ListAppend => if args.len() != 2 {
            failed(ErrorKind::NativeArity)
        } else {
            match (args[0], args[1]) {
                (ValueView::List(list), ValueView::Float(item)) => ExecutionView {
                    frames,
                    control: ControlView::Deliver {
                        value: ValueView::List(
                            ListView {
                                contents: list.contents.push(ValueView::Float(item)),
                                shape: list.shape,
                            },
                        ),
                    },
                },
                _ => failed(ErrorKind::NativeDomain),
            }
        },
        NativeOp::ListMap => if args.len() != 2 {
            failed(ErrorKind::NativeArity)
        } else {
            match (args[0], args[1]) {
                (ValueView::List(list), ValueView::Function(mapper)) => if list.contents.len()
                    == 0 {
                    ExecutionView {
                        frames,
                        control: ControlView::Deliver {
                            value: ValueView::List(
                                ListView { contents: Seq::empty(), shape: list.shape },
                            ),
                        },
                    }
                } else {
                    let (target, locals) = with_spec(mapper, seq![list.contents[0]]);
                    ExecutionView {
                        frames: frames.push(FrameView::Mapping { list, mapper, done: Seq::empty() }),
                        control: ControlView::Enter { func_ref: target, locals },
                    }
                },
                _ => failed(ErrorKind::NativeDomain),
            }
        },
        NativeOp::ListFold => if args.len() != 3 {
            failed(ErrorKind::NativeArity)
        } else {
            match (args[0], args[1], args[2]) {
                (
                    ValueView::List(list),
                    ValueView::Float(init),
                    ValueView::Function(reducer),
                ) => if list.contents.len() == 0 {
                    ExecutionView {
                        frames,
                        control: ControlView::Deliver { value: ValueView::Float(init) },
                    }
                } else {
                    let (target, locals) = with_spec(
                        reducer,
                        seq![ValueView::Float(init), list.contents[0]],
                    );
                    ExecutionView {
                        frames: frames.push(FrameView::Folding { list, reducer, index: 0 }),
                        control: ControlView::Enter { func_ref: target, locals },
                    }
                },
                _ => failed(ErrorKind::NativeDomain),
            }
        },
    }
}

/// The run after the mapper's result `value` came back to a `map` that has
/// `done` behind it: the list of all results once the last one is in, and
/// else a call of the mapper on the next item.
pub open spec fn map_next_spec(
    rest: Seq<FrameView>,
    list: ListView,
    mapper: HandleView,
    done: Seq<ValueView>,
    value: ValueView,
) -> ExecutionView {
    let done = done.push(value);
    if done.len() >= list.contents.len() {
        ExecutionView {
            frames: rest,
            control: ControlView::Deliver {
                value: ValueView::List(ListView { contents: done, shape: list.shape }),
            },
        }
    } else {
        let (target, locals) = with_spec(mapper, seq![list.contents[done.len() as int]]);
        ExecutionView {
            frames: rest.push(FrameView::Mapping { list, mapper, done }),
            control: ControlView::Enter { func_ref: target, locals },
        }
    }
}

/// The run after the reducer's result `value` for item `index` came back to a
/// `fold`: the result itself after the last item, and else a call of the
/// reducer on it and the next item. A result that is no number is an error.
pub open spec fn fold_next_spec(
    rest: Seq<FrameView>,
    list: ListView,
    reducer: HandleView,
    index: usize,
    value: ValueView,
) -> ExecutionView {
    match value {
        ValueView::Float(sum) => if index + 1 >= list.contents.len() {
            ExecutionView { frames: rest, control: ControlView::Deliver { value: ValueView::Float(sum) } }
        } else {
            let (target, locals) = with_spec(
                reducer,
                seq![ValueView::Float(sum), list.contents[index + 1]],
            );
            ExecutionView {
                frames: rest.push(FrameView::Folding { list, reducer, index: (index + 1) as usize }),
                control: ControlView::Enter { func_ref: target, locals },
            }
        },
        _ => failed(ErrorKind::NativeDomain),
    }
}

/// The list that `append` hands back holds the list that was handed over,
/// item by item, and the new number behind it. The list that was handed over
/// is a value: it is after the call what it was before.
pub proof fn lemma_append_keeps_list(frames: Seq<FrameView>, list: ListView, item: u64)
    ensures
        match native_spec(
            NativeOp::ListAppend,
            frames,
            seq![ValueView::List(list), ValueView::Float(item)],
        ).control {
            ControlView::Deliver { value: ValueView::List(grown) } => {
                &&& grown.shape == list.shape
                &&& grown.contents.len() == list.contents.len() + 1
                &&& grown.contents.take(list.contents.len() as int) == list.contents
                &&& grown.contents.last() == ValueView::Float(item)
            },
            _ => false,
        },
{
    assert(list.contents.push(ValueView::Float(item)).take(list.contents.len() as int)
        =~= list.contents);
}

/// The run that hands `value` to the innermost function in progress.
fn hand_back(frames: Vec<Frame>, value: Value) -> (r: Execution)
    ensures
        r@ == (ExecutionView { frames: views(frames@), control: ControlView::Deliver { value: value@ } }),
{
    Execution { frames, control: Control::Deliver { value } }
}

/// The list value of `contents`, each of shape `shape`.
fn list_value(contents: Vec<Value>, shape: Shape) -> (r: Value)
    ensures
        r@ == ValueView::List(ListView { contents: views(contents@), shape: shape@ }),
{
    let r = Value::List(Rc::new(ListValue { contents, shape }));
    proof {
        r.lemma_model();
    }
    r
}

/// An arithmetic operation: two numbers go to the host.
fn arithmetic(op: FloatOp, frames: Vec<Frame>, args: Vec<Value>) -> (r: Execution)
    ensures
        r@ == native_spec(NativeOp::Arithmetic(op), views(frames@), views(args@)),
{
    if args.len() != 2 {
        return fail(ErrorKind::NativeArity);
    }
    match args[0] {
        Value::Float(left) => match args[1] {
            Value::Float(right) => Execution { frames, control: Control::Await { op, left, right } },
            _ => fail(ErrorKind::NativeDomain),
        },
        _ => fail(ErrorKind::NativeDomain),
    }
}

/// `new()`: the empty list of numbers.
fn list_new(frames: Vec<Frame>, args: Vec<Value>) -> (r: Execution)
    ensures
        r@ == native_spec(NativeOp::ListNew, views(frames@), views(args@)),
{
    proof {
        broadcast use group_views;

    }
    if args.len() != 0 {
        return fail(ErrorKind::NativeArity);
    }
    hand_back(frames, list_value(Vec::new(), shape_float()))
}

/// `append(list, number)`: a new list with the number at its end. The list
/// that was handed over stays as it is.
fn list_append(frames: Vec<Frame>, args: Vec<Value>) -> (r: Execution)
    ensures
        r@ == native_spec(NativeOp::ListAppend, views(frames@), views(args@)),
{
    proof {
        broadcast use group_views;

    }
    if args.len() != 2 {
        return fail(ErrorKind::NativeArity);
    }
    proof {
        args@[0].lemma_model();
    }
    match &args[0] {
        Value::List(list) => match args[1] {
            Value::Float(item) => {
                let mut copy = list.copy_contents();
                copy.push(Value::Float(item));
                hand_back(frames, list_value(copy, list.shape.clone()))
            },
            _ => fail(ErrorKind::NativeDomain),
        },
        _ => fail(ErrorKind::NativeDomain),
    }
}

/// `map(list, mapper)`: starts the mapper on the first item, or hands back
/// the empty list.
fn list_map(frames: Vec<Frame>, args: Vec<Value>) -> (r: Execution)
    ensures
        r@ == native_spec(NativeOp::ListMap, views(frames@), views(args@)),
{
    proof {
        broadcast use group_views;

    }
    if args.len() != 2 {
        return fail(ErrorKind::NativeArity);
    }
    proof {
        args@[0].lemma_model();
        args@[1].lemma_model();
    }
    match &args[0] {
        Value::List(list) => match &args[1] {
            Value::Function(mapper) => {
                if list.contents.len() == 0 {
                    hand_back(frames, list_value(Vec::new(), list.shape.clone()))
                } else {
                    let mut first: Vec<Value> = Vec::new();
                    first.push(list.contents[0].clone());
                    assert(views(first@) =~= seq![list@.contents[0]]);
                    let (target, locals) = mapper.with(first);
                    let mut frames = frames;
                    frames.push(
                        Frame::Mapping { list: list.clone(), mapper: mapper.clone(), done: Vec::new() },
                    );
                    Execution { frames, control: Control::Enter { func_ref: target, locals } }
                }
            },
            _ => fail(ErrorKind::NativeDomain),
        },
        _ => fail(ErrorKind::NativeDomain),
    }
}

/// `fold(list, number, reducer)`: starts the reducer on the number and the
/// first item, or hands back the number.
fn list_fold(frames: Vec<Frame>, args: Vec<Value>) -> (r: Execution)
    ensures
        r@ == native_spec(NativeOp::ListFold, views(frames@), views(args@)),
{
    proof {
        broadcast use group_views;

    }
    if args.len() != 3 {
        return fail(ErrorKind::NativeArity);
    }
    proof {
        args@[0].lemma_model();
        args@[2].lemma_model();
    }
    match &args[0] {
        Value::List(list) => match args[1] {
            Value::Float(init) => match &args[2] {
                Value::Function(reducer) => {
                    if list.contents.len() == 0 {
                        hand_back(frames, Value::Float(init))
                    } else {
                        let mut first: Vec<Value> = Vec::new();
                        first.push(Value::Float(init));
                        first.push(list.contents[0].clone());
                        assert(views(first@) =~= seq![ValueView::Float(init), list@.contents[0]]);
                        let (target, locals) = reducer.with(first);
                        let mut frames = frames;
                        frames.push(
                            Frame::Folding { list: list.clone(), reducer: reducer.clone(), index: 0 },
                        );
                        Execution { frames, control: Control::Enter { func_ref: target, locals } }
                    }
                },
                _ => fail(ErrorKind::NativeDomain),
            },
            _ => fail(ErrorKind::NativeDomain),
        },
        _ => fail(ErrorKind::NativeDomain),
    }
}

/// Calls the built-in function `op` with `args`.
pub fn call_native(op: NativeOp, frames: Vec<Frame>, args: Vec<Value>) -> (r: Execution)
    ensures
        r@ == native_spec(op, views(frames@), views(args@)),
{
    match op {
        NativeOp::Arithmetic(fop) => arithmetic(fop, frames, args),
        NativeOp::ListNew => list_new(frames, args),
        NativeOp::ListAppend => list_append(frames, args),
        NativeOp::ListMap => list_map(frames, args),
        NativeOp::ListFold => list_fold(frames, args),
    }
}

/// Goes on with a `map` after the mapper's result `value` came back.
pub fn map_next(
    rest: Vec<Frame>,
    list: Rc<ListValue>,
    mapper: Rc<FunctionHandle>,
    done: Vec<Value>,
    value: Value,
) -> (r: Execution)
    ensures
        r@ == map_next_spec(views(rest@), list@, mapper@, views(done@), value@),
{
    proof {
        broadcast use group_views;

    }
    let mut done = done;
    done.push(value);
    if done.len() >= list.contents.len() {
        hand_back(rest, list_value(done, list.shape.clone()))
    } else {
        let mut next: Vec<Value> = Vec::new();
        next.push(list.contents[done.len()].clone());
        assert(views(next@) =~= seq![list@.contents[done@.len() as int]]);
        let (target, locals) = mapper.with(next);
        let mut frames = rest;
        frames.push(Frame::Mapping { list, mapper, done });
        Execution { frames, control: Control::Enter { func_ref: target, locals } }
    }
}

/// Goes on with a `fold` after the reducer's result `value` came back.
pub fn fold_next(
    rest: Vec<Frame>,
    list: Rc<ListValue>,
    reducer: Rc<FunctionHandle>,
    index: usize,
    value: Value,
) -> (r: Execution)
    ensures
        r@ == fold_next_spec(views(rest@), list@, reducer@, index, value@),
{
    proof {
        broadcast use group_views;

    }
    match value {
        Value::Float(sum) => {
            let len = list.contents.len();
            if len == 0 || index >= len - 1 {
                hand_back(rest, Value::Float(sum))
            } else {
                let mut next: Vec<Value> = Vec::new();
                next.push(Value::Float(sum));
                next.push(list.contents[index + 1].clone());
                assert(views(next@) =~= seq![ValueView::Float(sum), list@.contents[index + 1]]);
                let (target, locals) = reducer.with(next);
                let mut frames = rest;
                frames.push(Frame::Folding { list, reducer, index: index + 1 });
                Execution { frames, control: Control::Enter { func_ref: target, locals } }
            }
        },
        _ => fail(ErrorKind::NativeDomain),
    }
}

/// The shape of the four operations: two numbers to a number.
pub open spec fn float_op_shape() -> ShapeView {
    function_of(
        seq![base(BaseShapeKind::Float), base(BaseShapeKind::Float)],
        base(BaseShapeKind::Float),
    )
}

/// The shape of the six comparisons: two numbers to a truth value.
pub open spec fn float_compare_shape() -> ShapeView {
    function_of(
        seq![base(BaseShapeKind::Float), base(BaseShapeKind::Float)],
        base(BaseShapeKind::Boolean),
    )
}

/// The shape of a list of numbers.
pub open spec fn float_list() -> ShapeView {
    list_of(base(BaseShapeKind::Float))
}

/// The built-in function `op` as the package `Core` offers it, in `module`
/// under `name`.
pub open spec fn native_entry(
    module: Seq<char>,
    name: Seq<char>,
    op: NativeOp,
    shape: ShapeView,
) -> RunFunctionView {
    RunFunctionView::NativeFunction(
        NativeFunctionView {
            func: op,
            func_ref: FunctionRefView { package: "Core"@, module, name, shape },
        },
    )
}

/// The module without constants that holds `functions`.
pub open spec fn native_module(functions: Table<RunFunctionView>) -> BitModuleView {
    BitModuleView {
        string_constants: Seq::empty(),
        function_refs: Seq::empty(),
        functions,
        shape_refs: Seq::empty(),
    }
}

/// `functions` with the arithmetic operation `op` under `name`.
pub open spec fn with_float_op(
    functions: Table<RunFunctionView>,
    name: Seq<char>,
    op: FloatOp,
) -> Table<RunFunctionView> {
    functions.insert(
        name,
        native_entry(
            "Core"@,
            name,
            NativeOp::Arithmetic(op),
            if op.gives_number() {
                float_op_shape()
            } else {
                float_compare_shape()
            },
        ),
    )
}

/// The functions of the module `Core`: each operator under its own symbol.
pub open spec fn core_functions() -> Table<RunFunctionView> {
    let t0 = Table::<RunFunctionView>::empty();
    let t1 = with_float_op(t0, "+"@, FloatOp::Add);
    let t2 = with_float_op(t1, "-"@, FloatOp::Subtract);
    let t3 = with_float_op(t2, "*"@, FloatOp::Multiply);
    let t4 = with_float_op(t3, "/"@, FloatOp::Divide);
    let t5 = with_float_op(t4, "=="@, FloatOp::Equal);
    let t6 = with_float_op(t5, "!="@, FloatOp::NotEqual);
    let t7 = with_float_op(t6, ">"@, FloatOp::Greater);
    let t8 = with_float_op(t7, ">="@, FloatOp::GreaterEqual);
    let t9 = with_float_op(t8, "<"@, FloatOp::Less);
    with_float_op(t9, "<="@, FloatOp::LessEqual)
}

/// The functions of the module `List`.
pub open spec fn list_functions() -> Table<RunFunctionView> {
    let number = base(BaseShapeKind::Float);
    let t0 = Table::<RunFunctionView>::empty();
    let t1 = t0.insert(
        "new"@,
        native_entry("List"@, "new"@, NativeOp::ListNew, function_of(Seq::empty(), float_list())),
    );
    let t2 = t1.insert(
        "append"@,
        native_entry(
            "List"@,
            "append"@,
            NativeOp::ListAppend,
            function_of(seq![float_list(), number], float_list()),
        ),
    );
    let t3 = t2.insert(
        "map"@,
        native_entry(
            "List"@,
            "map"@,
            NativeOp::ListMap,
            function_of(seq![float_list(), function_of(seq![number], number)], float_list()),
        ),
    );
    t3.insert(
        "fold"@,
        native_entry(
            "List"@,
            "fold"@,
            NativeOp::ListFold,
            function_of(
                seq![float_list(), number, function_of(seq![number, number], number)],
                number,
            ),
        ),
    )
}

/// The package `Core`: the modules `Core` and `List`.
pub open spec fn core_runtime_view() -> Table<BitModuleView> {
    Table::<BitModuleView>::empty().insert("Core"@, native_module(core_functions())).insert(
        "List"@,
        native_module(list_functions()),
    )
}

/// Two shapes as a sequence.
fn two_shapes(a: Shape, b: Shape) -> (r: Vec<Shape>)
    ensures
        views(r@) == seq![a@, b@],
{
    let mut v: Vec<Shape> = Vec::new();
    v.push(a);
    v.push(b);
    assert(views(v@) =~= seq![a@, b@]);
    v
}

/// Puts the built-in function `op` into `funcs` under `name`, as a function
/// of module `module` with shape `shape`.
fn exact(funcs: &mut NameMap<RunFunction>, module: &str, name: &str, op: NativeOp, shape: Shape)
    requires
        old(funcs).wf(),
    ensures
        final(funcs).wf(),
        final(funcs)@ == old(funcs)@.insert(name@, native_entry(module@, name@, op, shape@)),
{
    let func_ref = FunctionRef {
        package: String::from_str("Core"),
        module: String::from_str(module),
        name: String::from_str(name),
        shape,
    };
    let result = RunFunction::NativeFunction(NativeFunction { func: op, func_ref });
    funcs.insert(String::from_str(name), result);
}

/// Puts an operation on two numbers into `funcs` under `name`.
fn op(funcs: &mut NameMap<RunFunction>, name: &str, op: FloatOp, result_shape: Shape)
    requires
        old(funcs).wf(),
        result_shape@ == base(
            if op.gives_number() {
                BaseShapeKind::Float
            } else {
                BaseShapeKind::Boolean
            },
        ),
    ensures
        final(funcs).wf(),
        final(funcs)@ == with_float_op(old(funcs)@, name@, op),
{
    let shape = shape_function(two_shapes(shape_float(), shape_float()), result_shape);
    exact(funcs, "Core", name, NativeOp::Arithmetic(op), shape);
}

/// Puts one of the four operations into `funcs` under `name`.
fn float_op(funcs: &mut NameMap<RunFunction>, name: &str, operation: FloatOp)
    requires
        old(funcs).wf(),
        operation.gives_number(),
    ensures
        final(funcs).wf(),
        final(funcs)@ == with_float_op(old(funcs)@, name@, operation),
{
    op(funcs, name, operation, shape_float());
}

/// Puts one of the six comparisons into `funcs` under `name`.
fn float_compare_op(funcs: &mut NameMap<RunFunction>, name: &str, operation: FloatOp)
    requires
        old(funcs).wf(),
        !operation.gives_number(),
    ensures
        final(funcs).wf(),
        final(funcs)@ == with_float_op(old(funcs)@, name@, operation),
{
    op(funcs, name, operation, shape_boolean());
}

/// The module without constants that holds `functions`.
fn module_of(functions: NameMap<RunFunction>) -> (r: BitModule)
    requires
        functions.wf(),
    ensures
        r.wf(),
        r@ == native_module(functions@),
{
    proof {
        broadcast use group_views;

    }
    BitModule {
        string_constants: Vec::new(),
        function_refs: Vec::new(),
        functions,
        shape_refs: Vec::new(),
    }
}

/// The module `Core`.
fn core_module() -> (r: BitModule)
    ensures
        r.wf(),
        r@ == native_module(core_functions()),
{
    let mut functions: NameMap<RunFunction> = NameMap::new();
    float_op(&mut functions, "+", FloatOp::Add);
    float_op(&mut functions, "-", FloatOp::Subtract);
    float_op(&mut functions, "*", FloatOp::Multiply);
    float_op(&mut functions, "/", FloatOp::Divide);
    float_compare_op(&mut functions, "==", FloatOp::Equal);
    float_compare_op(&mut functions, "!=", FloatOp::NotEqual);
    float_compare_op(&mut functions, ">", FloatOp::Greater);
    float_compare_op(&mut functions, ">=", FloatOp::GreaterEqual);
    float_compare_op(&mut functions, "<", FloatOp::Less);
    float_compare_op(&mut functions, "<=", FloatOp::LessEqual);
    module_of(functions)
}

/// The module `List`.
fn list_module() -> (r: BitModule)
    ensures
        r.wf(),
        r@ == native_module(list_functions()),
{
    proof {
        broadcast use group_views;

    }
    let mut functions: NameMap<RunFunction> = NameMap::new();
    exact(
        &mut functions,
        "List",
        "new",
        NativeOp::ListNew,
        shape_function(Vec::new(), shape_list(shape_float())),
    );
    exact(
        &mut functions,
        "List",
        "append",
        NativeOp::ListAppend,
        shape_function(
            two_shapes(shape_list(shape_float()), shape_float()),
            shape_list(shape_float()),
        ),
    );
    let mut one: Vec<Shape> = Vec::new();
    one.push(shape_float());
    assert(views(one@) =~= seq![base(BaseShapeKind::Float)]);
    let mapper_shape = shape_function(one, shape_float());
    exact(
        &mut functions,
        "List",
        "map",
        NativeOp::ListMap,
        shape_function(two_shapes(shape_list(shape_float()), mapper_shape), shape_list(shape_float())),
    );
    let reducer_shape = shape_function(two_shapes(shape_float(), shape_float()), shape_float());
    let mut three = two_shapes(shape_list(shape_float()), shape_float());
    three.push(reducer_shape);
    assert(views(three@) =~= seq![
        float_list(),
        base(BaseShapeKind::Float),
        function_of(
            seq![base(BaseShapeKind::Float), base(BaseShapeKind::Float)],
            base(BaseShapeKind::Float),
        ),
    ]);
    exact(
        &mut functions,
        "List",
        "fold",
        NativeOp::ListFold,
        shape_function(three, shape_float()),
    );
    module_of(functions)
}

/// The package `Core` that every machine has: the operators on numbers in its
/// module `Core`, the list functions in its module `List`.
pub fn core_runtime() -> (r: BitPackage)
    ensures
        r.wf(),
        r@ == core_runtime_view(),
{
    let mut modules: NameMap<BitModule> = NameMap::new();
    modules.insert(String::from_str("Core"), core_module());
    modules.insert(String::from_str("List"), list_module());
    BitPackage { modules }
}

} // verus!
