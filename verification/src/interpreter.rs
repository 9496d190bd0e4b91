use vstd::prelude::*;
use std::rc::Rc;
use crate::bytecode::{
    BitApplication,
    BitApplicationView,
    BitFunction,
    BitFunctionView,
    BitModule,
    BitModuleView,
    FunctionRef,
    FunctionRefView,
    Instruction,
};
use crate::error::{ErrorKind, ErrorView, LangError, error_of};
use crate::runtime::{FunctionHandle, HandleView, ListValue, ListView, Value, ValueView};
use crate::shapes::{Shape, ShapeView};
use crate::lib_core::{
    core_runtime,
    core_runtime_view,
    native_spec,
    map_next_spec,
    fold_next_spec,
    call_native,
    map_next,
    fold_next,
};
use crate::support::{views, group_views};

verus! {

/// The arithmetic on numbers that the host computes for the machine.
#[derive(Debug, Clone, Copy, PartialEq, Eq, Structural)]
pub enum FloatOp {
    Add,
    Subtract,
    Multiply,
    Divide,
    Equal,
    NotEqual,
    Less,
    Greater,
    LessEqual,
    GreaterEqual,
}

impl FloatOp {
    /// Whether the operation gives a number; the others give a truth value.
    pub open spec fn gives_number(self) -> bool {
        match self {
            FloatOp::Add | FloatOp::Subtract | FloatOp::Multiply | FloatOp::Divide => true,
            _ => false,
        }
    }

    pub fn is_arithmetic(&self) -> (r: bool)
        ensures
            r == self.gives_number(),
    {
        match self {
            FloatOp::Add | FloatOp::Subtract | FloatOp::Multiply | FloatOp::Divide => true,
            _ => false,
        }
    }
}

/// The functions that the machine has built in.
#[derive(Debug, Clone, Copy, PartialEq, Eq, Structural)]
pub enum NativeOp {
    Arithmetic(FloatOp),
    ListNew,
    ListAppend,
    ListMap,
    ListFold,
}

/// A built-in function, and the reference under which programs call it.
#[derive(Debug)]
pub struct NativeFunction {
    pub func: NativeOp,
    pub func_ref: FunctionRef,
}

/// The mathematical value of a [`NativeFunction`].
pub struct NativeFunctionView {
    pub func: NativeOp,
    pub func_ref: FunctionRefView,
}

impl View for NativeFunction {
    type V = NativeFunctionView;

    open spec fn view(&self) -> NativeFunctionView {
        NativeFunctionView { func: self.func, func_ref: self.func_ref@ }
    }
}

/// A function that the machine can run: compiled code, or built in.
#[derive(Debug)]
pub enum RunFunction {
    BitFunction(BitFunction),
    NativeFunction(NativeFunction),
}

/// The mathematical value of a [`RunFunction`].
pub enum RunFunctionView {
    BitFunction(BitFunctionView),
    NativeFunction(NativeFunctionView),
}

impl View for RunFunction {
    type V = RunFunctionView;

    open spec fn view(&self) -> RunFunctionView {
        match self {
            RunFunction::BitFunction(f) => RunFunctionView::BitFunction(f@),
            RunFunction::NativeFunction(f) => RunFunctionView::NativeFunction(f@),
        }
    }
}

/// What the host hands back for an arithmetic operation.
#[derive(Debug, Clone, Copy, PartialEq, Eq, Structural)]
pub enum Answer {
    Number(u64),
    Truth(bool),
}

/// One function in progress.
#[derive(Debug)]
pub enum Frame {
    /// Compiled code: its locals, its stack, and the next instruction.
    Code { func_ref: FunctionRef, locals: Vec<Value>, stack: Vec<Value>, pc: usize },
    /// The built-in `map`, waiting for the mapper's result on item `done.len()`.
    Mapping { list: Rc<ListValue>, mapper: Rc<FunctionHandle>, done: Vec<Value> },
    /// The built-in `fold`, waiting for the reducer's result on item `index`.
    Folding { list: Rc<ListValue>, reducer: Rc<FunctionHandle>, index: usize },
}

/// The mathematical value of a [`Frame`].
pub enum FrameView {
    Code { func_ref: FunctionRefView, locals: Seq<ValueView>, stack: Seq<ValueView>, pc: usize },
    Mapping { list: ListView, mapper: HandleView, done: Seq<ValueView> },
    Folding { list: ListView, reducer: HandleView, index: usize },
}

impl View for Frame {
    type V = FrameView;

    open spec fn view(&self) -> FrameView {
        match self {
            Frame::Code { func_ref, locals, stack, pc } => FrameView::Code {
                func_ref: func_ref@,
                locals: views(locals@),
                stack: views(stack@),
                pc: *pc,
            },
            Frame::Mapping { list, mapper, done } => FrameView::Mapping {
                list: list@,
                mapper: mapper@,
                done: views(done@),
            },
            Frame::Folding { list, reducer, index } => FrameView::Folding {
                list: list@,
                reducer: reducer@,
                index: *index,
            },
        }
    }
}

/// What the machine does next.
#[derive(Debug)]
pub enum Control {
    /// Run the next instruction of the innermost function.
    Execute,
    /// Start `func_ref` with `locals`.
    Enter { func_ref: FunctionRef, locals: Vec<Value> },
    /// Hand `value` to the innermost function as the result of what it called.
    Deliver { value: Value },
    /// Wait for the host to compute `op` on two numbers.
    Await { op: FloatOp, left: u64, right: u64 },
    /// The run is over, with this result.
    Finished { value: Value },
    /// The run is over, with this error.
    Failed { error: LangError },
}

/// The mathematical value of a [`Control`].
pub enum ControlView {
    Execute,
    Enter { func_ref: FunctionRefView, locals: Seq<ValueView> },
    Deliver { value: ValueView },
    Await { op: FloatOp, left: u64, right: u64 },
    Finished { value: ValueView },
    Failed { error: ErrorView },
}

impl View for Control {
    type V = ControlView;

    open spec fn view(&self) -> ControlView {
        match self {
            Control::Execute => ControlView::Execute,
            Control::Enter { func_ref, locals } => ControlView::Enter {
                func_ref: func_ref@,
                locals: views(locals@),
            },
            Control::Deliver { value } => ControlView::Deliver { value: value@ },
            Control::Await { op, left, right } => ControlView::Await {
                op: *op,
                left: *left,
                right: *right,
            },
            Control::Finished { value } => ControlView::Finished { value: value@ },
            Control::Failed { error } => ControlView::Failed { error: error@ },
        }
    }
}

/// A run of the machine: the functions in progress, innermost last, and what
/// to do next.
#[derive(Debug)]
pub struct Execution {
    pub frames: Vec<Frame>,
    pub control: Control,
}

/// The mathematical value of an [`Execution`].
pub struct ExecutionView {
    pub frames: Seq<FrameView>,
    pub control: ControlView,
}

impl View for Execution {
    type V = ExecutionView;

    open spec fn view(&self) -> ExecutionView {
        ExecutionView { frames: views(self.frames@), control: self.control@ }
    }
}

impl ExecutionView {
    /// Whether a step changes anything: the run is neither over nor waiting
    /// for the host.
    pub open spec fn active(self) -> bool {
        match self.control {
            ControlView::Execute => true,
            ControlView::Enter { .. } => true,
            ControlView::Deliver { .. } => true,
            _ => false,
        }
    }
}

/// The run that ended with an error of kind `kind`. Nothing of the functions
/// that were in progress is kept.
pub open spec fn failed(kind: ErrorKind) -> ExecutionView {
    ExecutionView { frames: Seq::empty(), control: ControlView::Failed { error: error_of(kind) } }
}

/// The locals of a new activation: the arguments, cut or filled up with null
/// to `n` slots.
pub open spec fn resize_spec(locals: Seq<ValueView>, n: int) -> Seq<ValueView> {
    if locals.len() >= n {
        locals.take(n)
    } else {
        locals + nulls((n - locals.len()) as nat)
    }
}

/// `n` times null.
pub open spec fn nulls(n: nat) -> Seq<ValueView> {
    Seq::new(n, |i: int| ValueView::Null)
}

/// What a handle makes of a call with `args`: the function to run and its
/// first locals. A closure puts what it captured before the arguments; a
/// recursive handle puts itself before them and leaves the rest to the handle
/// it wraps.
pub open spec fn with_spec(h: HandleView, args: Seq<ValueView>) -> (FunctionRefView, Seq<ValueView>)
    decreases h,
{
    match h {
        HandleView::Plain(f) => (f, args),
        HandleView::Closure { func, captured } => (func, captured + args),
        HandleView::Recursive { inner } => with_spec(
            *inner,
            seq![ValueView::Function(HandleView::Recursive { inner })] + args,
        ),
    }
}

/// The run in which the innermost function goes on at `pc`.
pub open spec fn running(
    rest: Seq<FrameView>,
    func_ref: FunctionRefView,
    locals: Seq<ValueView>,
    stack: Seq<ValueView>,
    pc: usize,
) -> ExecutionView {
    ExecutionView {
        frames: rest.push(FrameView::Code { func_ref, locals, stack, pc }),
        control: ControlView::Execute,
    }
}

/// Whether the instruction after `pc` is a return, so that a call at `pc`
/// takes the place of its caller.
pub open spec fn is_tail(body: Seq<Instruction>, pc: usize) -> bool {
    pc + 1 < body.len() && body[pc + 1] == Instruction::Return
}

/// The run after a call at `pc`: the caller is dropped where the call is a
/// tail call, and else waits, past the call, for the result.
pub open spec fn call_spec(
    body: Seq<Instruction>,
    rest: Seq<FrameView>,
    func_ref: FunctionRefView,
    locals: Seq<ValueView>,
    stack: Seq<ValueView>,
    pc: usize,
    target: FunctionRefView,
    args: Seq<ValueView>,
) -> ExecutionView {
    if is_tail(body, pc) {
        ExecutionView { frames: rest, control: ControlView::Enter { func_ref: target, locals: args } }
    } else {
        ExecutionView {
            frames: rest.push(
                FrameView::Code { func_ref, locals, stack, pc: (pc + 1) as usize },
            ),
            control: ControlView::Enter { func_ref: target, locals: args },
        }
    }
}

/// A new activation has as many locals as its function asks for.
pub proof fn lemma_resize_len(locals: Seq<ValueView>, n: int)
    requires
        0 <= n,
    ensures
        resize_spec(locals, n).len() == n,
{
}

/// An instruction that names a slot below the number of locals finds its
/// local: it fails only where the stack has nothing to store, and it keeps
/// the number of locals.
pub proof fn lemma_slot_is_there(
    module: BitModuleView,
    locals: Seq<ValueView>,
    stack: Seq<ValueView>,
    instr: Instruction,
)
    requires
        match instr {
            Instruction::LoadValue { local } => local < locals.len(),
            Instruction::StoreValue { local } => local < locals.len(),
            _ => false,
        },
    ensures
        match load_spec(module, locals, stack, instr) {
            Ok((after, _)) => after.len() == locals.len(),
            Err(kind) => kind == ErrorKind::StackUnderflow && instr is StoreValue && stack.len() == 0,
        },
{
}

/// A call that stands directly before a return takes the place of its
/// caller: the functions in progress are those that waited below the caller,
/// one fewer than before the call. Any other call leaves the caller waiting.
pub proof fn lemma_tail_call_replaces(
    body: Seq<Instruction>,
    rest: Seq<FrameView>,
    func_ref: FunctionRefView,
    locals: Seq<ValueView>,
    stack: Seq<ValueView>,
    pc: usize,
    target: FunctionRefView,
    args: Seq<ValueView>,
)
    ensures
        ({
            let after = call_spec(body, rest, func_ref, locals, stack, pc, target, args);
            &&& after.control == (ControlView::Enter { func_ref: target, locals: args })
            &&& is_tail(body, pc) ==> after.frames == rest
            &&& !is_tail(body, pc) ==> after.frames.len() == rest.len() + 1 && after.frames.drop_last()
                == rest
        }),
{
    if !is_tail(body, pc) {
        let frame = FrameView::Code { func_ref, locals, stack, pc: (pc + 1) as usize };
        assert(rest.push(frame).drop_last() =~= rest);
    }
}

/// Where a jump of `jump` at `pc` leads: relative to the instruction after
/// `pc`, and no further than the end of a body of `len` instructions. `None`
/// where it would lead before the body's start.
pub open spec fn jump_target(pc: usize, jump: i32, len: int) -> Option<usize> {
    if pc + jump + 1 < 0 {
        None
    } else if pc + jump + 1 >= len {
        Some(len as usize)
    } else {
        Some((pc + jump + 1) as usize)
    }
}

/// What an instruction that loads or stores makes of the locals and the
/// stack.
pub open spec fn load_spec(
    module: BitModuleView,
    locals: Seq<ValueView>,
    stack: Seq<ValueView>,
    instr: Instruction,
) -> Result<(Seq<ValueView>, Seq<ValueView>), ErrorKind> {
    match instr {
        Instruction::LoadConstNull => Ok((locals, stack.push(ValueView::Null))),
        Instruction::LoadConstTrue => Ok((locals, stack.push(ValueView::True))),
        Instruction::LoadConstFalse => Ok((locals, stack.push(ValueView::False))),
        Instruction::LoadConstString { const_id } => if const_id >= module.string_constants.len() {
            Err(ErrorKind::BadIndex)
        } else {
            Ok((locals, stack.push(ValueView::String(module.string_constants[const_id as int]))))
        },
        Instruction::LoadConstFunction { const_id } => if const_id >= module.function_refs.len() {
            Err(ErrorKind::BadIndex)
        } else {
            Ok(
                (
                    locals,
                    stack.push(
                        ValueView::Function(
                            HandleView::Plain(module.function_refs[const_id as int]),
                        ),
                    ),
                ),
            )
        },
        Instruction::LoadConstFloat { value } => Ok((locals, stack.push(ValueView::Float(value)))),
        Instruction::LoadValue { local } => if local >= locals.len() {
            Err(ErrorKind::BadIndex)
        } else {
            Ok((locals, stack.push(locals[local as int])))
        },
        Instruction::StoreValue { local } => if stack.len() == 0 {
            Err(ErrorKind::StackUnderflow)
        } else if local >= locals.len() {
            Err(ErrorKind::BadIndex)
        } else {
            Ok((locals.update(local as int, stack.last()), stack.drop_last()))
        },
        _ => Ok((locals, stack)),
    }
}

/// What an instruction that works on the stack alone makes of it.
pub open spec fn stack_spec(module: BitModuleView, stack: Seq<ValueView>, instr: Instruction) -> Result<
    Seq<ValueView>,
    ErrorKind,
> {
    match instr {
        Instruction::Duplicate => if stack.len() == 0 {
            Err(ErrorKind::StackUnderflow)
        } else {
            Ok(stack.push(stack.last()))
        },
        Instruction::Pop => if stack.len() == 0 {
            Err(ErrorKind::StackUnderflow)
        } else {
            Ok(stack.drop_last())
        },
        Instruction::Swap => if stack.len() < 2 {
            Err(ErrorKind::StackUnderflow)
        } else {
            Ok(
                stack.take(stack.len() - 2).push(stack[stack.len() - 1]).push(
                    stack[stack.len() - 2],
                ),
            )
        },
        Instruction::BuildClosure { param_count, func_id } => if func_id
            >= module.function_refs.len() {
            Err(ErrorKind::BadIndex)
        } else if stack.len() < param_count {
            Err(ErrorKind::StackUnderflow)
        } else {
            let cut = stack.len() - param_count;
            Ok(
                stack.take(cut).push(
                    ValueView::Function(
                        HandleView::Closure {
                            func: module.function_refs[func_id as int],
                            captured: stack.skip(cut),
                        },
                    ),
                ),
            )
        },
        Instruction::BuildRecursiveFunction => if stack.len() == 0 {
            Err(ErrorKind::StackUnderflow)
        } else {
            match stack.last() {
                ValueView::Function(handle) => Ok(
                    stack.drop_last().push(
                        ValueView::Function(HandleView::Recursive { inner: Box::new(handle) }),
                    ),
                ),
                _ => Err(ErrorKind::CallOfNonFunction),
            }
        },
        _ => Ok(stack),
    }
}

/// The run after a call of the function numbered `func_id`: it takes as many
/// arguments off the stack as its shape has.
pub open spec fn call_static_spec(
    module: BitModuleView,
    body: Seq<Instruction>,
    rest: Seq<FrameView>,
    func_ref: FunctionRefView,
    locals: Seq<ValueView>,
    stack: Seq<ValueView>,
    pc: usize,
    func_id: u32,
) -> ExecutionView {
    if func_id >= module.function_refs.len() {
        failed(ErrorKind::BadIndex)
    } else {
        let target = module.function_refs[func_id as int];
        match target.shape {
            ShapeView::Function { args, result } => if stack.len() < args.len() {
                failed(ErrorKind::StackUnderflow)
            } else {
                let cut = stack.len() - args.len();
                call_spec(body, rest, func_ref, locals, stack.take(cut), pc, target, stack.skip(cut))
            },
            _ => failed(ErrorKind::CallOfNonFunction),
        }
    }
}

/// The run after a call of the handle that lies on the stack below
/// `param_count` arguments.
pub open spec fn call_dynamic_spec(
    body: Seq<Instruction>,
    rest: Seq<FrameView>,
    func_ref: FunctionRefView,
    locals: Seq<ValueView>,
    stack: Seq<ValueView>,
    pc: usize,
    param_count: u16,
) -> ExecutionView {
    if stack.len() < param_count + 1 {
        failed(ErrorKind::StackUnderflow)
    } else {
        let cut = stack.len() - param_count;
        match stack[cut - 1] {
            ValueView::Function(handle) => {
                let (target, full) = with_spec(handle, stack.skip(cut));
                call_spec(body, rest, func_ref, locals, stack.take(cut - 1), pc, target, full)
            },
            _ => failed(ErrorKind::CallOfNonFunction),
        }
    }
}

/// The run after a return, a branch or a jump.
pub open spec fn flow_spec(
    body: Seq<Instruction>,
    rest: Seq<FrameView>,
    func_ref: FunctionRefView,
    locals: Seq<ValueView>,
    stack: Seq<ValueView>,
    pc: usize,
    instr: Instruction,
) -> ExecutionView {
    match instr {
        Instruction::Return => if stack.len() == 0 {
            failed(ErrorKind::StackUnderflow)
        } else {
            ExecutionView { frames: rest, control: ControlView::Deliver { value: stack.last() } }
        },
        Instruction::Branch { jump } => if stack.len() == 0 {
            failed(ErrorKind::StackUnderflow)
        } else {
            match stack.last() {
                ValueView::True => running(
                    rest,
                    func_ref,
                    locals,
                    stack.drop_last(),
                    (pc + 1) as usize,
                ),
                ValueView::False => match jump_target(pc, jump, body.len() as int) {
                    Some(target) => running(rest, func_ref, locals, stack.drop_last(), target),
                    None => failed(ErrorKind::BadJump),
                },
                _ => failed(ErrorKind::BranchOnNonBoolean),
            }
        },
        Instruction::Jump { jump } => match jump_target(pc, jump, body.len() as int) {
            Some(target) => running(rest, func_ref, locals, stack, target),
            None => failed(ErrorKind::BadJump),
        },
        _ => failed(ErrorKind::ErrorInstruction),
    }
}

/// The run after the instruction `instr` at `pc` of `body`, a function of
/// `module`, with `rest` the functions that wait below it.
pub open spec fn instruction_spec(
    module: BitModuleView,
    body: Seq<Instruction>,
    rest: Seq<FrameView>,
    func_ref: FunctionRefView,
    locals: Seq<ValueView>,
    stack: Seq<ValueView>,
    pc: usize,
    instr: Instruction,
) -> ExecutionView {
    let next = (pc + 1) as usize;
    match instr {
        Instruction::NoOp | Instruction::Debug => running(rest, func_ref, locals, stack, next),
        Instruction::LoadConstNull
        | Instruction::LoadConstTrue
        | Instruction::LoadConstFalse
        | Instruction::LoadConstString { .. }
        | Instruction::LoadConstFunction { .. }
        | Instruction::LoadConstFloat { .. }
        | Instruction::LoadValue { .. }
        | Instruction::StoreValue { .. } => match load_spec(module, locals, stack, instr) {
            Ok((locals, stack)) => running(rest, func_ref, locals, stack, next),
            Err(kind) => failed(kind),
        },
        Instruction::Duplicate
        | Instruction::Pop
        | Instruction::Swap
        | Instruction::BuildClosure { .. }
        | Instruction::BuildRecursiveFunction => match stack_spec(module, stack, instr) {
            Ok(stack) => running(rest, func_ref, locals, stack, next),
            Err(kind) => failed(kind),
        },
        Instruction::CallStatic { func_id } => call_static_spec(
            module,
            body,
            rest,
            func_ref,
            locals,
            stack,
            pc,
            func_id,
        ),
        Instruction::CallDynamic { param_count } => call_dynamic_spec(
            body,
            rest,
            func_ref,
            locals,
            stack,
            pc,
            param_count,
        ),
        Instruction::Return | Instruction::Branch { .. } | Instruction::Jump { .. } | Instruction::Error => flow_spec(
            body,
            rest,
            func_ref,
            locals,
            stack,
            pc,
            instr,
        ),
    }
}

/// The run after one instruction of the innermost function.
pub open spec fn execute_spec(app: BitApplicationView, frames: Seq<FrameView>) -> ExecutionView {
    if frames.len() == 0 {
        failed(ErrorKind::NoActivation)
    } else {
        match frames.last() {
            FrameView::Code { func_ref, locals, stack, pc } => match (
                app.module_of(func_ref),
                app.function_of(func_ref),
            ) {
                (Some(module), Some(RunFunctionView::BitFunction(f))) => if pc >= f.body.len() {
                    failed(ErrorKind::MissingReturn)
                } else {
                    instruction_spec(
                        module,
                        f.body,
                        frames.drop_last(),
                        func_ref,
                        locals,
                        stack,
                        pc,
                        f.body[pc as int],
                    )
                },
                _ => failed(ErrorKind::UnknownFunction),
            },
            _ => failed(ErrorKind::NoActivation),
        }
    }
}

/// The run after `func_ref` was entered with `locals`.
pub open spec fn enter_spec(
    app: BitApplicationView,
    frames: Seq<FrameView>,
    func_ref: FunctionRefView,
    locals: Seq<ValueView>,
) -> ExecutionView {
    match app.function_of(func_ref) {
        Some(RunFunctionView::BitFunction(f)) => running(
            frames,
            func_ref,
            resize_spec(locals, f.max_locals as int),
            Seq::empty(),
            0,
        ),
        Some(RunFunctionView::NativeFunction(n)) => native_spec(n.func, frames, locals),
        None => failed(ErrorKind::UnknownFunction),
    }
}

/// The run after `value` came back to the innermost function in progress.
pub open spec fn deliver_spec(frames: Seq<FrameView>, value: ValueView) -> ExecutionView {
    if frames.len() == 0 {
        ExecutionView { frames, control: ControlView::Finished { value } }
    } else {
        let rest = frames.drop_last();
        match frames.last() {
            FrameView::Code { func_ref, locals, stack, pc } => running(
                rest,
                func_ref,
                locals,
                stack.push(value),
                pc,
            ),
            FrameView::Mapping { list, mapper, done } => map_next_spec(
                rest,
                list,
                mapper,
                done,
                value,
            ),
            FrameView::Folding { list, reducer, index } => fold_next_spec(
                rest,
                list,
                reducer,
                index,
                value,
            ),
        }
    }
}

/// One step of the machine. A run that is over, or waits for the host, stays
/// as it is.
pub open spec fn step_spec(app: BitApplicationView, e: ExecutionView) -> ExecutionView {
    match e.control {
        ControlView::Execute => execute_spec(app, e.frames),
        ControlView::Enter { func_ref, locals } => enter_spec(app, e.frames, func_ref, locals),
        ControlView::Deliver { value } => deliver_spec(e.frames, value),
        _ => e,
    }
}

/// At most `fuel` steps, stopping where a step would change nothing.
pub open spec fn run_spec(app: BitApplicationView, e: ExecutionView, fuel: nat) -> ExecutionView
    decreases fuel,
{
    if fuel == 0 || !e.active() {
        e
    } else {
        run_spec(app, step_spec(app, e), (fuel - 1) as nat)
    }
}

/// The run after the host answered the arithmetic that it was asked for: a
/// number for the four operations, a truth value for the six comparisons.
pub open spec fn answer_spec(e: ExecutionView, answer: Answer) -> ExecutionView {
    match e.control {
        ControlView::Await { op, left, right } => match answer {
            Answer::Number(bits) => if op.gives_number() {
                ExecutionView {
                    frames: e.frames,
                    control: ControlView::Deliver { value: ValueView::Float(bits) },
                }
            } else {
                failed(ErrorKind::NativeDomain)
            },
            Answer::Truth(truth) => if op.gives_number() {
                failed(ErrorKind::NativeDomain)
            } else {
                ExecutionView {
                    frames: e.frames,
                    control: ControlView::Deliver {
                        value: if truth {
                            ValueView::True
                        } else {
                            ValueView::False
                        },
                    },
                }
            },
        },
        _ => failed(ErrorKind::UnexpectedAnswer),
    }
}

/// The run that starts `func_ref` with `locals`.
pub open spec fn start_spec(func_ref: FunctionRefView, locals: Seq<ValueView>) -> ExecutionView {
    ExecutionView { frames: Seq::empty(), control: ControlView::Enter { func_ref, locals } }
}

impl BitFunction {
    pub fn wrap(self) -> (r: RunFunction)
        ensures
            r@ == RunFunctionView::BitFunction(self@),
    {
        RunFunction::BitFunction(self)
    }
}

impl NativeFunction {
    pub fn wrap(self) -> (r: RunFunction)
        ensures
            r@ == RunFunctionView::NativeFunction(self@),
    {
        RunFunction::NativeFunction(self)
    }
}

impl FunctionHandle {
    /// The function to run for a call with `args`, and its first locals.
    pub fn with(&self, args: Vec<Value>) -> (r: (FunctionRef, Vec<Value>))
        ensures
            (r.0@, views(r.1@)) == with_spec(self@, views(args@)),
        decreases self,
    {
        proof {
            broadcast use group_views;

            self.lemma_model();
        }
        match self {
            FunctionHandle::Plain(f) => (f.clone(), args),
            FunctionHandle::Closure { func, captured } => {
                let mut locals = crate::runtime::clone_values(captured);
                let mut args = args;
                locals.append(&mut args);
                (func.clone(), locals)
            },
            FunctionHandle::Recursive { inner } => {
                let me = Value::Function(
                    Rc::new(FunctionHandle::Recursive { inner: inner.clone() }),
                );
                proof {
                    me.lemma_model();
                    (FunctionHandle::Recursive { inner: *inner }).lemma_model();
                }
                let ghost given = views(args@);
                let mut locals: Vec<Value> = Vec::new();
                locals.push(me);
                let mut args = args;
                locals.append(&mut args);
                assert(views(locals@) =~= seq![me@] + given);
                inner.with(locals)
            },
        }
    }
}

/// The run that ended with an error of kind `kind`.
pub fn fail(kind: ErrorKind) -> (r: Execution)
    ensures
        r@ == failed(kind),
{
    proof {
        broadcast use group_views;

    }
    Execution { frames: Vec::new(), control: Control::Failed { error: LangError::of(kind) } }
}

/// The run in which the function on top of `rest` goes on at `pc`.
fn go(
    rest: Vec<Frame>,
    func_ref: FunctionRef,
    locals: Vec<Value>,
    stack: Vec<Value>,
    pc: usize,
) -> (r: Execution)
    ensures
        r@ == running(views(rest@), func_ref@, views(locals@), views(stack@), pc),
{
    proof {
        broadcast use group_views;

    }
    let mut frames = rest;
    frames.push(Frame::Code { func_ref, locals, stack, pc });
    Execution { frames, control: Control::Execute }
}

/// The run after a call of `target` at `pc`.
fn call(
    body: &Vec<Instruction>,
    rest: Vec<Frame>,
    func_ref: FunctionRef,
    locals: Vec<Value>,
    stack: Vec<Value>,
    pc: usize,
    target: FunctionRef,
    args: Vec<Value>,
) -> (r: Execution)
    requires
        pc < body@.len(),
    ensures
        r@ == call_spec(
            body@,
            views(rest@),
            func_ref@,
            views(locals@),
            views(stack@),
            pc,
            target@,
            views(args@),
        ),
{
    proof {
        broadcast use group_views;

    }
    let mut frames = rest;
    let len = body.len();
    let tail = pc + 1 < len && match body[pc + 1] {
        Instruction::Return => true,
        _ => false,
    };
    if !tail {
        frames.push(Frame::Code { func_ref, locals, stack, pc: pc + 1 });
    }
    Execution { frames, control: Control::Enter { func_ref: target, locals: args } }
}

/// Takes the last `n` values off `stack`, in the order in which they stood.
fn take_top(stack: &mut Vec<Value>, n: usize) -> (r: Vec<Value>)
    requires
        n <= old(stack)@.len(),
    ensures
        r@ == old(stack)@.skip(old(stack)@.len() - n),
        final(stack)@ == old(stack)@.take(old(stack)@.len() - n),
        views(r@) == views(old(stack)@).skip(old(stack)@.len() - n),
        views(final(stack)@) == views(old(stack)@).take(old(stack)@.len() - n),
{
    proof {
        broadcast use group_views;

    }
    let cut = stack.len() - n;
    stack.split_off(cut)
}

/// Where a jump of `jump` at `pc` leads in a body of `len` instructions.
fn jump_to(pc: usize, jump: i32, len: usize) -> (r: Option<usize>)
    requires
        pc < len,
    ensures
        r == jump_target(pc, jump, len as int),
{
    if jump >= 0 {
        let forward = jump as usize;
        if forward >= len - pc - 1 {
            Some(len)
        } else {
            Some(pc + forward + 1)
        }
    } else {
        let wide: i64 = -(jump as i64);
        let back: usize = wide as usize;
        if back > pc + 1 {
            None
        } else {
            Some(pc + 1 - back)
        }
    }
}

/// The locals of a new activation: `locals`, cut or filled up to `n` slots.
fn fit_locals(locals: Vec<Value>, n: usize) -> (r: Vec<Value>)
    ensures
        views(r@) == resize_spec(views(locals@), n as int),
{
    proof {
        broadcast use group_views;

    }
    let mut out = locals;
    if out.len() >= n {
        out.truncate(n);
        out
    } else {
        let ghost given = views(out@);
        while out.len() < n
            invariant
                given.len() <= out@.len() <= n,
                views(out@) == given + nulls((out@.len() - given.len()) as nat),
            decreases n - out@.len(),
        {
            proof {
                broadcast use group_views;

            }
            let ghost before = views(out@);
            out.push(Value::Null);
            assert(views(out@) =~= given + nulls((out@.len() - given.len()) as nat));
        }
        out
    }
}

/// Carries out an instruction that loads or stores.
fn apply_load(
    module: &BitModule,
    locals: &mut Vec<Value>,
    stack: &mut Vec<Value>,
    instr: Instruction,
) -> (r: Result<(), ErrorKind>)
    ensures
        match r {
            Ok(_) => load_spec(module@, views(old(locals)@), views(old(stack)@), instr) == Ok::<
                _,
                ErrorKind,
            >((views(final(locals)@), views(final(stack)@))),
            Err(kind) => load_spec(module@, views(old(locals)@), views(old(stack)@), instr) == Err::<
                (Seq<ValueView>, Seq<ValueView>),
                _,
            >(kind),
        },
{
    proof {
        broadcast use group_views;

    }
    match instr {
        Instruction::LoadConstNull => {
            stack.push(Value::Null);
            Ok(())
        },
        Instruction::LoadConstTrue => {
            stack.push(Value::True);
            Ok(())
        },
        Instruction::LoadConstFalse => {
            stack.push(Value::False);
            Ok(())
        },
        Instruction::LoadConstString { const_id } => {
            match module.lookup_string(const_id) {
                Ok(text) => {
                    stack.push(Value::String(Rc::new(text)));
                    Ok(())
                },
                Err(_) => Err(ErrorKind::BadIndex),
            }
        },
        Instruction::LoadConstFunction { const_id } => {
            match module.lookup_function(const_id) {
                Ok(target) => {
                    let handle = FunctionHandle::Plain(target);
                    let value = Value::Function(Rc::new(handle));
                    proof {
                        handle.lemma_model();
                        value.lemma_model();
                    }
                    stack.push(value);
                    Ok(())
                },
                Err(_) => Err(ErrorKind::BadIndex),
            }
        },
        Instruction::LoadConstFloat { value } => {
            stack.push(Value::Float(value));
            Ok(())
        },
        Instruction::LoadValue { local } => {
            let slot = local as usize;
            if slot >= locals.len() {
                Err(ErrorKind::BadIndex)
            } else {
                let value = locals[slot].clone();
                stack.push(value);
                Ok(())
            }
        },
        Instruction::StoreValue { local } => {
            let slot = local as usize;
            match stack.pop() {
                None => Err(ErrorKind::StackUnderflow),
                Some(value) => {
                    if slot >= locals.len() {
                        Err(ErrorKind::BadIndex)
                    } else {
                        locals[slot] = value;
                        Ok(())
                    }
                },
            }
        },
        _ => Ok(()),
    }
}

/// Carries out an instruction that works on the stack alone.
fn apply_stack(module: &BitModule, stack: &mut Vec<Value>, instr: Instruction) -> (r: Result<
    (),
    ErrorKind,
>)
    ensures
        match r {
            Ok(_) => stack_spec(module@, views(old(stack)@), instr) == Ok::<_, ErrorKind>(
                views(final(stack)@),
            ),
            Err(kind) => stack_spec(module@, views(old(stack)@), instr) == Err::<Seq<ValueView>, _>(
                kind,
            ),
        },
{
    proof {
        broadcast use group_views;

    }
    let depth = stack.len();
    let ghost before = views(stack@);
    match instr {
        Instruction::Duplicate => {
            if depth == 0 {
                Err(ErrorKind::StackUnderflow)
            } else {
                let top = stack[depth - 1].clone();
                stack.push(top);
                Ok(())
            }
        },
        Instruction::Pop => {
            match stack.pop() {
                Some(_) => Ok(()),
                None => Err(ErrorKind::StackUnderflow),
            }
        },
        Instruction::Swap => {
            if depth < 2 {
                Err(ErrorKind::StackUnderflow)
            } else {
                let first = stack.pop().unwrap();
                let second = stack.pop().unwrap();
                stack.push(first);
                stack.push(second);
                assert(views(stack@) =~= before.take(before.len() - 2).push(
                    before[before.len() - 1],
                ).push(before[before.len() - 2]));
                Ok(())
            }
        },
        Instruction::BuildClosure { param_count, func_id } => {
            let n = param_count as usize;
            match module.lookup_function(func_id) {
                Err(_) => Err(ErrorKind::BadIndex),
                Ok(target) => {
                    if depth < n {
                        Err(ErrorKind::StackUnderflow)
                    } else {
                        let captured = take_top(stack, n);
                        let handle = FunctionHandle::Closure { func: target, captured };
                        let value = Value::Function(Rc::new(handle));
                        proof {
                            handle.lemma_model();
                            value.lemma_model();
                        }
                        stack.push(value);
                        Ok(())
                    }
                },
            }
        },
        Instruction::BuildRecursiveFunction => {
            match stack.pop() {
                None => Err(ErrorKind::StackUnderflow),
                Some(top) => {
                    proof {
                        top.lemma_model();
                    }
                    match top {
                        Value::Function(inner) => {
                            let handle = FunctionHandle::Recursive { inner };
                            let value = Value::Function(Rc::new(handle));
                            proof {
                                handle.lemma_model();
                                value.lemma_model();
                            }
                            stack.push(value);
                            Ok(())
                        },
                        _ => Err(ErrorKind::CallOfNonFunction),
                    }
                },
            }
        },
        _ => Ok(()),
    }
}

/// The run after a call of the function numbered `func_id`.
fn call_static(
    module: &BitModule,
    body: &Vec<Instruction>,
    rest: Vec<Frame>,
    func_ref: FunctionRef,
    locals: Vec<Value>,
    stack: Vec<Value>,
    pc: usize,
    func_id: u32,
) -> (r: Execution)
    requires
        pc < body@.len(),
    ensures
        r@ == call_static_spec(
            module@,
            body@,
            views(rest@),
            func_ref@,
            views(locals@),
            views(stack@),
            pc,
            func_id,
        ),
{
    let mut stack = stack;
    match module.lookup_function(func_id) {
        Err(_) => fail(ErrorKind::BadIndex),
        Ok(target) => {
            proof {
                target.shape.lemma_model();
            }
            let arity = match &target.shape {
                Shape::SimpleFunctionShape { args, result } => Some(args.len()),
                _ => None,
            };
            match arity {
                None => fail(ErrorKind::CallOfNonFunction),
                Some(n) => {
                    if stack.len() < n {
                        fail(ErrorKind::StackUnderflow)
                    } else {
                        let args = take_top(&mut stack, n);
                        call(body, rest, func_ref, locals, stack, pc, target, args)
                    }
                },
            }
        },
    }
}

/// The run after a call of the handle below `param_count` arguments.
fn call_dynamic(
    body: &Vec<Instruction>,
    rest: Vec<Frame>,
    func_ref: FunctionRef,
    locals: Vec<Value>,
    stack: Vec<Value>,
    pc: usize,
    param_count: u16,
) -> (r: Execution)
    requires
        pc < body@.len(),
    ensures
        r@ == call_dynamic_spec(
            body@,
            views(rest@),
            func_ref@,
            views(locals@),
            views(stack@),
            pc,
            param_count,
        ),
{
    let mut stack = stack;
    let n = param_count as usize;
    if stack.len() < n + 1 {
        fail(ErrorKind::StackUnderflow)
    } else {
        let ghost before = views(stack@);
        let args = take_top(&mut stack, n);
        let callee = stack.pop().unwrap();
        proof {
            broadcast use group_views;

            callee.lemma_model();
            assert(callee@ == before[before.len() - n - 1]);
            assert(views(stack@) =~= before.take(before.len() - n - 1));
        }
        match callee {
            Value::Function(handle) => {
                let (target, full) = handle.with(args);
                call(body, rest, func_ref, locals, stack, pc, target, full)
            },
            _ => fail(ErrorKind::CallOfNonFunction),
        }
    }
}

/// The run after a return, a branch or a jump.
fn flow(
    body: &Vec<Instruction>,
    rest: Vec<Frame>,
    func_ref: FunctionRef,
    locals: Vec<Value>,
    stack: Vec<Value>,
    pc: usize,
    instr: Instruction,
) -> (r: Execution)
    requires
        pc < body@.len(),
    ensures
        r@ == flow_spec(body@, views(rest@), func_ref@, views(locals@), views(stack@), pc, instr),
{
    proof {
        broadcast use group_views;

    }
    let len = body.len();
    let mut stack = stack;
    match instr {
        Instruction::Return => {
            match stack.pop() {
                None => fail(ErrorKind::StackUnderflow),
                Some(value) => Execution { frames: rest, control: Control::Deliver { value } },
            }
        },
        Instruction::Branch { jump } => {
            match stack.pop() {
                None => fail(ErrorKind::StackUnderflow),
                Some(top) => {
                    match top {
                        Value::True => go(rest, func_ref, locals, stack, pc + 1),
                        Value::False => match jump_to(pc, jump, len) {
                            Some(target) => go(rest, func_ref, locals, stack, target),
                            None => fail(ErrorKind::BadJump),
                        },
                        _ => fail(ErrorKind::BranchOnNonBoolean),
                    }
                },
            }
        },
        Instruction::Jump { jump } => {
            match jump_to(pc, jump, len) {
                Some(target) => go(rest, func_ref, locals, stack, target),
                None => fail(ErrorKind::BadJump),
            }
        },
        _ => fail(ErrorKind::ErrorInstruction),
    }
}

/// The run after `instr`, the instruction at `pc` of `body`.
fn run_instruction(
    module: &BitModule,
    body: &Vec<Instruction>,
    rest: Vec<Frame>,
    func_ref: FunctionRef,
    locals: Vec<Value>,
    stack: Vec<Value>,
    pc: usize,
    instr: Instruction,
) -> (r: Execution)
    requires
        pc < body@.len(),
    ensures
        r@ == instruction_spec(
            module@,
            body@,
            views(rest@),
            func_ref@,
            views(locals@),
            views(stack@),
            pc,
            instr,
        ),
{
    let len = body.len();
    let mut stack = stack;
    let mut locals = locals;
    match instr {
        Instruction::NoOp | Instruction::Debug => go(rest, func_ref, locals, stack, pc + 1),
        Instruction::LoadConstNull
        | Instruction::LoadConstTrue
        | Instruction::LoadConstFalse
        | Instruction::LoadConstString { .. }
        | Instruction::LoadConstFunction { .. }
        | Instruction::LoadConstFloat { .. }
        | Instruction::LoadValue { .. }
        | Instruction::StoreValue { .. } => match apply_load(module, &mut locals, &mut stack, instr) {
            Ok(_) => go(rest, func_ref, locals, stack, pc + 1),
            Err(kind) => fail(kind),
        },
        Instruction::Duplicate
        | Instruction::Pop
        | Instruction::Swap
        | Instruction::BuildClosure { .. }
        | Instruction::BuildRecursiveFunction => match apply_stack(module, &mut stack, instr) {
            Ok(_) => go(rest, func_ref, locals, stack, pc + 1),
            Err(kind) => fail(kind),
        },
        Instruction::CallStatic { func_id } => call_static(
            module,
            body,
            rest,
            func_ref,
            locals,
            stack,
            pc,
            func_id,
        ),
        Instruction::CallDynamic { param_count } => call_dynamic(
            body,
            rest,
            func_ref,
            locals,
            stack,
            pc,
            param_count,
        ),
        Instruction::Return | Instruction::Branch { .. } | Instruction::Jump { .. } | Instruction::Error => flow(
            body,
            rest,
            func_ref,
            locals,
            stack,
            pc,
            instr,
        ),
    }
}

/// The run after one instruction of the innermost function.
fn execute_top(app: &BitApplication, frames: Vec<Frame>) -> (r: Execution)
    requires
        app.wf(),
    ensures
        r@ == execute_spec(app@, views(frames@)),
{
    proof {
        broadcast use group_views;

    }
    let mut frames = frames;
    match frames.pop() {
        None => fail(ErrorKind::NoActivation),
        Some(Frame::Code { func_ref, locals, stack, pc }) => {
            match app.lookup_module(&func_ref) {
                Err(_) => fail(ErrorKind::UnknownFunction),
                Ok(module) => match module.functions.get(&func_ref.name) {
                    Some(RunFunction::BitFunction(f)) => {
                        if pc >= f.body.len() {
                            fail(ErrorKind::MissingReturn)
                        } else {
                            let instr = f.body[pc];
                            run_instruction(module, &f.body, frames, func_ref, locals, stack, pc, instr)
                        }
                    },
                    _ => fail(ErrorKind::UnknownFunction),
                },
            }
        },
        Some(_) => fail(ErrorKind::NoActivation),
    }
}

/// The run after `func_ref` was entered with `locals`.
fn enter(app: &BitApplication, frames: Vec<Frame>, func_ref: FunctionRef, locals: Vec<Value>) -> (r:
    Execution)
    requires
        app.wf(),
    ensures
        r@ == enter_spec(app@, views(frames@), func_ref@, views(locals@)),
{
    proof {
        broadcast use group_views;

    }
    match app.lookup_function(&func_ref) {
        Err(_) => fail(ErrorKind::UnknownFunction),
        Ok(RunFunction::BitFunction(f)) => {
            let locals = fit_locals(locals, f.max_locals as usize);
            go(frames, func_ref, locals, Vec::new(), 0)
        },
        Ok(RunFunction::NativeFunction(n)) => call_native(n.func, frames, locals),
    }
}

/// The run after `value` came back to the innermost function in progress.
fn deliver(frames: Vec<Frame>, value: Value) -> (r: Execution)
    ensures
        r@ == deliver_spec(views(frames@), value@),
{
    proof {
        broadcast use group_views;

    }
    let mut frames = frames;
    match frames.pop() {
        None => Execution { frames, control: Control::Finished { value } },
        Some(Frame::Code { func_ref, locals, stack, pc }) => {
            let mut stack = stack;
            stack.push(value);
            go(frames, func_ref, locals, stack, pc)
        },
        Some(Frame::Mapping { list, mapper, done }) => map_next(frames, list, mapper, done, value),
        Some(Frame::Folding { list, reducer, index }) => fold_next(
            frames,
            list,
            reducer,
            index,
            value,
        ),
    }
}

/// The stack machine: an application with the built-in package `Core` in it.
#[derive(Debug)]
pub struct Machine {
    pub app: BitApplication,
}

impl View for Machine {
    type V = BitApplicationView;

    open spec fn view(&self) -> BitApplicationView {
        self.app@
    }
}

impl Machine {
    /// The application is well formed.
    pub open spec fn wf(&self) -> bool {
        self.app.wf()
    }

    /// The machine for `app`, with the package `Core` put into it.
    pub fn new(app: BitApplication) -> (r: Machine)
        requires
            app.wf(),
        ensures
            r.wf(),
            r@ == (BitApplicationView {
                packages: app@.packages.insert("Core"@, core_runtime_view()),
                main: app@.main,
            }),
    {
        let mut app = app;
        app.packages.insert(String::from_str("Core"), core_runtime());
        Machine { app }
    }

    /// The run that is about to start `func_ref` with `locals`.
    pub fn start(func_ref: FunctionRef, locals: Vec<Value>) -> (r: Execution)
        ensures
            r@ == start_spec(func_ref@, views(locals@)),
    {
        proof {
            broadcast use group_views;

        }
        Execution { frames: Vec::new(), control: Control::Enter { func_ref, locals } }
    }

    /// One step of the run `e`.
    pub fn step(&self, e: Execution) -> (r: Execution)
        requires
            self.wf(),
        ensures
            r@ == step_spec(self@, e@),
    {
        let Execution { frames, control } = e;
        match control {
            Control::Execute => execute_top(&self.app, frames),
            Control::Enter { func_ref, locals } => enter(&self.app, frames, func_ref, locals),
            Control::Deliver { value } => deliver(frames, value),
            other => Execution { frames, control: other },
        }
    }

    /// Runs `e` for at most `fuel` steps: until it is over, or waits for the
    /// host, or the steps are used up.
    pub fn run(&self, e: Execution, fuel: u64) -> (r: Execution)
        requires
            self.wf(),
        ensures
            r@ == run_spec(self@, e@, fuel as nat),
    {
        let ghost start = e@;
        let mut e = e;
        let mut left = fuel;
        while left > 0 && e.is_active()
            invariant
                self.wf(),
                run_spec(self@, e@, left as nat) == run_spec(self@, start, fuel as nat),
            decreases left,
        {
            e = self.step(e);
            left = left - 1;
        }
        e
    }

    /// Starts `func_ref` with `locals` and runs it for at most `fuel` steps.
    /// The run that comes back is over, or waits for the host to compute an
    /// arithmetic operation, or has used up its steps.
    pub fn execute(&self, func_ref: FunctionRef, locals: Vec<Value>, fuel: u64) -> (r: Execution)
        requires
            self.wf(),
        ensures
            r@ == run_spec(self@, start_spec(func_ref@, views(locals@)), fuel as nat),
    {
        self.run(Machine::start(func_ref, locals), fuel)
    }

    /// Starts the application's main function, without arguments, and runs it
    /// for at most `fuel` steps.
    pub fn run_main(&self, fuel: u64) -> (r: Execution)
        requires
            self.wf(),
        ensures
            r@ == run_spec(self@, start_spec(self@.main, Seq::empty()), fuel as nat),
    {
        proof {
            broadcast use group_views;

        }
        self.execute(self.app.main.clone(), Vec::new(), fuel)
    }

    /// Hands the host's answer to the run that waits for it.
    pub fn answer(e: Execution, answer: Answer) -> (r: Execution)
        ensures
            r@ == answer_spec(e@, answer),
    {
        let Execution { frames, control } = e;
        match control {
            Control::Await { op, left, right } => match answer {
                Answer::Number(bits) => if op.is_arithmetic() {
                    Execution { frames, control: Control::Deliver { value: Value::Float(bits) } }
                } else {
                    fail(ErrorKind::NativeDomain)
                },
                Answer::Truth(truth) => if op.is_arithmetic() {
                    fail(ErrorKind::NativeDomain)
                } else {
                    let value = if truth {
                        Value::True
                    } else {
                        Value::False
                    };
                    Execution { frames, control: Control::Deliver { value } }
                },
            },
            _ => fail(ErrorKind::UnexpectedAnswer),
        }
    }
}

impl Execution {
    /// Whether a step changes anything.
    pub fn is_active(&self) -> (r: bool)
        ensures
            r == self@.active(),
    {
        match &self.control {
            Control::Execute => true,
            Control::Enter { .. } => true,
            Control::Deliver { .. } => true,
            _ => false,
        }
    }
}

} // verus!
