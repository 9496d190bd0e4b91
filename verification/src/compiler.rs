use vstd::prelude::*;
use crate::ast::{Parameter, ParameterView};
use crate::bytecode::{
    BitFunction,
    BitFunctionView,
    BitModule,
    BitModuleView,
    ConstantId,
    FunctionRef,
    FunctionRefView,
    Instruction,
    LocalId,
};
use crate::error::{ErrorKind, LangError, error_of};
use crate::interpreter::{RunFunction, RunFunctionView};
use crate::ir::{Ir, IrFunctionView, IrModule, IrModuleView, IrView};
use crate::optimize::passes::{Optimizer, lemma_standard_passes, optimize_spec};
use crate::shapes::{Shape, ShapeView};
use crate::support::{
    distinct,
    find_name,
    index_of,
    lemma_index_of,
    lemma_index_of_absent,
    lemma_index_of_found,
    lemma_take_all,
    lemma_take_last,
    lemma_views_push,
    views,
    NameMap,
    Table,
};

verus! {

/// The three tables of constants of the module that is being emitted.
#[derive(Debug)]
pub struct ModuleContext {
    pub function_refs: Vec<FunctionRef>,
    pub shape_refs: Vec<Shape>,
    pub string_constants: Vec<String>,
}

/// The mathematical value of a [`ModuleContext`].
pub struct ModuleContextView {
    pub function_refs: Seq<FunctionRefView>,
    pub shape_refs: Seq<ShapeView>,
    pub string_constants: Seq<Seq<char>>,
}

impl View for ModuleContext {
    type V = ModuleContextView;

    open spec fn view(&self) -> ModuleContextView {
        ModuleContextView {
            function_refs: views(self.function_refs@),
            shape_refs: views(self.shape_refs@),
            string_constants: views(self.string_constants@),
        }
    }
}

/// What tells the functions of a table apart: package, module and name of
/// each.
pub open spec fn keys_of(refs: Seq<FunctionRefView>) -> Seq<(Seq<char>, Seq<char>, Seq<char>)> {
    Seq::new(refs.len(), |i: int| refs[i].key())
}

/// The number under which `item` stands in a table with the keys `keys`, or
/// will stand once it is added at the end.
pub open spec fn slot_of<K>(keys: Seq<K>, item: K) -> int {
    match index_of(keys, item) {
        Some(i) => i,
        None => keys.len() as int,
    }
}

/// The table after `item` was looked up: as it was where it holds the item's
/// key, and else with the item at its end.
pub open spec fn interned<T, K>(table: Seq<T>, keys: Seq<K>, item: T, key: K) -> Seq<T> {
    if index_of(keys, key) is Some {
        table
    } else {
        table.push(item)
    }
}

impl ModuleContextView {
    /// The empty tables.
    pub open spec fn empty() -> ModuleContextView {
        ModuleContextView {
            function_refs: Seq::empty(),
            shape_refs: Seq::empty(),
            string_constants: Seq::empty(),
        }
    }

    /// No table holds an entry twice: no string, no shape, and no function by
    /// package, module and name.
    pub open spec fn unique(self) -> bool {
        &&& distinct(self.string_constants)
        &&& distinct(self.shape_refs)
        &&& distinct(keys_of(self.function_refs))
    }

    /// The number of the function `func`, and the tables after it was looked
    /// up; an error where the number does not fit.
    pub open spec fn function_ref(self, func: FunctionRefView) -> Result<
        (ConstantId, ModuleContextView),
        ErrorKind,
    > {
        let keys = keys_of(self.function_refs);
        if slot_of(keys, func.key()) > u32::MAX {
            Err(ErrorKind::TooManyConstants)
        } else {
            Ok(
                (
                    slot_of(keys, func.key()) as u32,
                    ModuleContextView {
                        function_refs: interned(self.function_refs, keys, func, func.key()),
                        ..self
                    },
                ),
            )
        }
    }

    /// The number of the string `s`, and the tables after it was looked up.
    pub open spec fn string_constant(self, s: Seq<char>) -> Result<
        (ConstantId, ModuleContextView),
        ErrorKind,
    > {
        if slot_of(self.string_constants, s) > u32::MAX {
            Err(ErrorKind::TooManyConstants)
        } else {
            Ok(
                (
                    slot_of(self.string_constants, s) as u32,
                    ModuleContextView {
                        string_constants: interned(self.string_constants, self.string_constants, s, s),
                        ..self
                    },
                ),
            )
        }
    }

    /// The number of the shape `s`, and the tables after it was looked up.
    pub open spec fn shape(self, s: ShapeView) -> Result<(ConstantId, ModuleContextView), ErrorKind> {
        if slot_of(self.shape_refs, s) > u32::MAX {
            Err(ErrorKind::TooManyConstants)
        } else {
            Ok(
                (
                    slot_of(self.shape_refs, s) as u32,
                    ModuleContextView {
                        shape_refs: interned(self.shape_refs, self.shape_refs, s, s),
                        ..self
                    },
                ),
            )
        }
    }
}

/// A table without doubles stays one when an item is looked up in it.
pub proof fn lemma_interned_distinct<K>(keys: Seq<K>, key: K)
    requires
        distinct(keys),
    ensures
        distinct(interned(keys, keys, key, key)),
{
    lemma_index_of(keys, key);
}

/// Looking up a function keeps its table without doubles.
pub proof fn lemma_interned_function(refs: Seq<FunctionRefView>, func: FunctionRefView)
    requires
        distinct(keys_of(refs)),
    ensures
        distinct(keys_of(interned(refs, keys_of(refs), func, func.key()))),
{
    let keys = keys_of(refs);
    lemma_index_of(keys, func.key());
    if index_of(keys, func.key()) is None {
        assert(keys_of(refs.push(func)) =~= keys.push(func.key()));
    }
}

impl ModuleContext {
    pub fn new() -> (r: ModuleContext)
        ensures
            r@ == ModuleContextView::empty(),
            r@.unique(),
    {
        let r = ModuleContext {
            function_refs: Vec::new(),
            shape_refs: Vec::new(),
            string_constants: Vec::new(),
        };
        assert(views(r.function_refs@) =~= Seq::<FunctionRefView>::empty());
        assert(views(r.shape_refs@) =~= Seq::<ShapeView>::empty());
        assert(views(r.string_constants@) =~= Seq::<Seq<char>>::empty());
        r
    }

    /// The place of `next` in `col`, which gets it at its end if it does not
    /// hold it yet.
    pub fn lookup(col: &mut Vec<String>, next: &String) -> (r: usize)
        ensures
            r == slot_of(views(old(col)@), next@),
            views(final(col)@) == interned(views(old(col)@), views(old(col)@), next@, next@),
    {
        match find_name(col, next) {
            Some(i) => i,
            None => {
                let ghost before = col@;
                let copy = next.clone();
                col.push(copy);
                proof {
                    lemma_views_push(before, copy);
                }
                col.len() - 1
            },
        }
    }

    pub fn lookup_function_ref(&mut self, func: &FunctionRef) -> (r: Result<ConstantId, LangError>)
        ensures
            match r {
                Ok(id) => old(self)@.function_ref(func@) == Ok::<_, ErrorKind>((id, final(self)@)),
                Err(e) => old(self)@.function_ref(func@) is Err && e@ == error_of(
                    ErrorKind::TooManyConstants,
                ),
            },
    {
        let slot = match find_function(&self.function_refs, func) {
            Some(i) => i,
            None => {
                let ghost before = self.function_refs@;
                let copy = func.clone();
                self.function_refs.push(copy);
                proof {
                    lemma_views_push(before, copy);
                }
                self.function_refs.len() - 1
            },
        };
        if slot > u32::MAX as usize {
            Err(LangError::of(ErrorKind::TooManyConstants))
        } else {
            Ok(slot as u32)
        }
    }

    pub fn lookup_string_constant(&mut self, s: &String) -> (r: Result<ConstantId, LangError>)
        ensures
            match r {
                Ok(id) => old(self)@.string_constant(s@) == Ok::<_, ErrorKind>((id, final(self)@)),
                Err(e) => old(self)@.string_constant(s@) is Err && e@ == error_of(
                    ErrorKind::TooManyConstants,
                ),
            },
    {
        let slot = ModuleContext::lookup(&mut self.string_constants, s);
        if slot > u32::MAX as usize {
            Err(LangError::of(ErrorKind::TooManyConstants))
        } else {
            Ok(slot as u32)
        }
    }

    pub fn lookup_shape(&mut self, shape: &Shape) -> (r: Result<ConstantId, LangError>)
        ensures
            match r {
                Ok(id) => old(self)@.shape(shape@) == Ok::<_, ErrorKind>((id, final(self)@)),
                Err(e) => old(self)@.shape(shape@) is Err && e@ == error_of(
                    ErrorKind::TooManyConstants,
                ),
            },
    {
        let slot = match find_shape(&self.shape_refs, shape) {
            Some(i) => i,
            None => {
                let ghost before = self.shape_refs@;
                let copy = shape.clone();
                self.shape_refs.push(copy);
                proof {
                    lemma_views_push(before, copy);
                }
                self.shape_refs.len() - 1
            },
        };
        if slot > u32::MAX as usize {
            Err(LangError::of(ErrorKind::TooManyConstants))
        } else {
            Ok(slot as u32)
        }
    }
}

/// The place of the first function of `refs` with package, module and name
/// of `func`.
fn find_function(refs: &Vec<FunctionRef>, func: &FunctionRef) -> (r: Option<usize>)
    ensures
        match r {
            Some(i) => index_of(keys_of(views(refs@)), func@.key()) == Some(i as int),
            None => index_of(keys_of(views(refs@)), func@.key()) is None,
        },
{
    let ghost keys = keys_of(views(refs@));
    let mut i: usize = 0;
    while i < refs.len()
        invariant
            i <= refs@.len(),
            keys == keys_of(views(refs@)),
            forall|j: int| 0 <= j < i ==> keys[j] != func@.key(),
        decreases refs@.len() - i,
    {
        if refs[i].same(func) {
            proof {
                assert(keys[i as int] == func@.key());
                lemma_index_of_found(keys, func@.key(), i as int);
            }
            return Some(i);
        }
        i += 1;
    }
    proof {
        lemma_index_of_absent(keys, func@.key());
    }
    None
}

/// The place of the first shape of `shapes` that is the same as `shape`.
fn find_shape(shapes: &Vec<Shape>, shape: &Shape) -> (r: Option<usize>)
    ensures
        match r {
            Some(i) => index_of(views(shapes@), shape@) == Some(i as int),
            None => index_of(views(shapes@), shape@) is None,
        },
{
    let mut i: usize = 0;
    while i < shapes.len()
        invariant
            i <= shapes@.len(),
            forall|j: int| 0 <= j < i ==> views(shapes@)[j] != shape@,
        decreases shapes@.len() - i,
    {
        if shapes[i].same(shape) {
            proof {
                lemma_index_of_found(views(shapes@), shape@, i as int);
            }
            return Some(i);
        }
        i += 1;
    }
    proof {
        lemma_index_of_absent(views(shapes@), shape@);
    }
    None
}

/// The slots of the function that is being emitted: which name has which
/// slot, which slots are free again, and how many there are.
#[derive(Debug)]
pub struct FuncContext {
    pub max_locals: LocalId,
    pub free_slots: Vec<LocalId>,
    pub locals: NameMap<LocalId>,
}

/// The mathematical value of a [`FuncContext`].
pub struct FuncContextView {
    pub max_locals: LocalId,
    pub free_slots: Seq<LocalId>,
    pub locals: Table<LocalId>,
}

impl View for FuncContext {
    type V = FuncContextView;

    open spec fn view(&self) -> FuncContextView {
        FuncContextView {
            max_locals: self.max_locals,
            free_slots: self.free_slots@,
            locals: self.locals@,
        }
    }
}

/// The slots of the first locals: each name of `args` at its place; of a name
/// that occurs twice the last place counts.
pub open spec fn arg_slots(args: Seq<ParameterView>) -> Table<LocalId>
    decreases args.len(),
{
    if args.len() == 0 {
        Table::empty()
    } else {
        arg_slots(args.drop_last()).insert(args.last().id, (args.len() - 1) as u16)
    }
}

impl FuncContextView {
    /// The slots of a function whose first locals are `args`.
    pub open spec fn start(args: Seq<ParameterView>) -> FuncContextView {
        FuncContextView {
            max_locals: args.len() as u16,
            free_slots: Seq::empty(),
            locals: arg_slots(args),
        }
    }

    /// Every slot that a name has, and every free slot, is below
    /// `max_locals`.
    pub open spec fn bounded(self) -> bool {
        &&& self.locals.wf()
        &&& forall|i: int| 0 <= i < self.locals.values.len() ==> (#[trigger] self.locals.values[i]) < self.max_locals
        &&& forall|i: int| 0 <= i < self.free_slots.len() ==> (#[trigger] self.free_slots[i]) < self.max_locals
    }

    /// The slot of `name` and the slots after it was looked up. A name that
    /// has none gets the slot that was freed last, or, where none is free, a
    /// new one; that is an error where the slot numbers are used up.
    pub open spec fn lookup_local(self, name: Seq<char>) -> Result<(LocalId, FuncContextView), ErrorKind> {
        match self.locals.get(name) {
            Some(slot) => Ok((slot, self)),
            None => if self.free_slots.len() > 0 {
                let slot = self.free_slots.last();
                Ok(
                    (
                        slot,
                        FuncContextView {
                            free_slots: self.free_slots.drop_last(),
                            locals: self.locals.insert(name, slot),
                            ..self
                        },
                    ),
                )
            } else if self.max_locals == u16::MAX {
                Err(ErrorKind::TooManyLocals)
            } else {
                Ok(
                    (
                        self.max_locals,
                        FuncContextView {
                            max_locals: (self.max_locals + 1) as u16,
                            locals: self.locals.insert(name, self.max_locals),
                            ..self
                        },
                    ),
                )
            },
        }
    }

    /// The slots after `name` was marked free: its slot is the next to be
    /// handed out.
    pub open spec fn free(self, name: Seq<char>) -> Result<FuncContextView, ErrorKind> {
        match self.lookup_local(name) {
            Ok((slot, next)) => Ok(
                FuncContextView { free_slots: next.free_slots.push(slot), ..next },
            ),
            Err(kind) => Err(kind),
        }
    }
}

/// Looking up a name keeps the slots below their number, never lowers that
/// number, and gives a slot below it.
pub proof fn lemma_lookup_local_bounded(f: FuncContextView, name: Seq<char>)
    requires
        f.bounded(),
    ensures
        match f.lookup_local(name) {
            Ok((slot, next)) => next.bounded() && slot < next.max_locals && f.max_locals
                <= next.max_locals,
            Err(_) => true,
        },
{
    lemma_index_of(f.locals.names, name);
}

impl FuncContext {
    /// The slots are well formed.
    pub open spec fn wf(&self) -> bool {
        self.locals.wf()
    }

    /// The slots of a function whose first locals are `args`.
    pub fn new(args: &Vec<Parameter>) -> (r: FuncContext)
        requires
            args@.len() <= u16::MAX,
        ensures
            r.wf(),
            r@ == FuncContextView::start(views(args@)),
            r@.bounded(),
    {
        let ghost given = views(args@);
        let mut locals: NameMap<LocalId> = NameMap::new();
        let mut index: u16 = 0;
        let mut i: usize = 0;
        proof {
            lemma_take_all(given);
        }
        while i < args.len()
            invariant
                i <= args@.len(),
                args@.len() <= u16::MAX,
                index == i,
                given == views(args@),
                locals.wf(),
                locals@ == arg_slots(given.take(i as int)),
                forall|j: int| 0 <= j < locals@.values.len() ==> (#[trigger] locals@.values[j]) < index,
            decreases args@.len() - i,
        {
            proof {
                lemma_take_last(given, i + 1);
                lemma_index_of(locals@.names, args@[i as int].id@);
            }
            locals.insert(args[i].id.clone(), index);
            index += 1;
            i += 1;
        }
        proof {
            lemma_take_all(given);
        }
        FuncContext { max_locals: index, free_slots: Vec::new(), locals }
    }

    pub fn lookup_local(&mut self, name: &String) -> (r: Result<LocalId, LangError>)
        requires
            old(self).wf(),
        ensures
            final(self).wf(),
            match r {
                Ok(slot) => old(self)@.lookup_local(name@) == Ok::<_, ErrorKind>((slot, final(self)@)),
                Err(e) => old(self)@.lookup_local(name@) is Err && e@ == error_of(
                    ErrorKind::TooManyLocals,
                ) && final(self)@ == old(self)@,
            },
    {
        match self.locals.get(name) {
            Some(slot) => Ok(*slot),
            None => {
                let slot = match self.free_slots.pop() {
                    Some(slot) => slot,
                    None => {
                        if self.max_locals == u16::MAX {
                            return Err(LangError::of(ErrorKind::TooManyLocals));
                        }
                        let next = self.max_locals;
                        self.max_locals = self.max_locals + 1;
                        next
                    },
                };
                self.locals.insert(name.clone(), slot);
                Ok(slot)
            },
        }
    }

    pub fn free(&mut self, name: &String) -> (r: Result<(), LangError>)
        requires
            old(self).wf(),
        ensures
            final(self).wf(),
            match r {
                Ok(_) => old(self)@.free(name@) == Ok::<_, ErrorKind>(final(self)@),
                Err(e) => old(self)@.free(name@) is Err && e@ == error_of(ErrorKind::TooManyLocals)
                    && final(self)@ == old(self)@,
            },
    {
        let id = self.lookup_local(name)?;
        self.free_slots.push(id);
        Ok(())
    }
}

/// The state of the emitter: the module's tables and the function's slots.
pub struct EmitState {
    pub module: ModuleContextView,
    pub func: FuncContextView,
}

/// A result with one instruction: `instr`, with the state `st`.
pub open spec fn one(instr: Instruction, st: EmitState) -> Result<
    (Seq<Instruction>, EmitState),
    ErrorKind,
> {
    Ok((seq![instr], st))
}

/// The then-arm as it is emitted: with a jump over the else-arm at its end,
/// unless it ends with a return.
pub open spec fn then_arm(then_code: Seq<Instruction>, else_len: int) -> Seq<Instruction> {
    if then_code.len() > 0 && then_code.last() == Instruction::Return {
        then_code
    } else {
        then_code.push(Instruction::Jump { jump: else_len as i32 })
    }
}

/// The instructions for the operations `body`, one after the other, and the
/// state after them.
pub open spec fn emit_spec(st: EmitState, body: Seq<IrView>) -> Result<
    (Seq<Instruction>, EmitState),
    ErrorKind,
>
    decreases body, 0nat,
{
    if body.len() == 0 {
        Ok((Seq::empty(), st))
    } else {
        match emit_spec(st, body.drop_last()) {
            Err(kind) => Err(kind),
            Ok((code, st1)) => match emit_op_spec(st1, body.last()) {
                Err(kind) => Err(kind),
                Ok((more, st2)) => Ok((code + more, st2)),
            },
        }
    }
}

/// The instructions for one operation, and the state after it. A constant is
/// replaced by its number in the module's table, a local by its slot. A
/// branch becomes a conditional jump over its then-arm, followed by both
/// arms. A marker that a local is free emits nothing and frees the slot.
pub open spec fn emit_op_spec(st: EmitState, op: IrView) -> Result<
    (Seq<Instruction>, EmitState),
    ErrorKind,
>
    decreases op, 1nat,
{
    match op {
        IrView::NoOp => one(Instruction::NoOp, st),
        IrView::Duplicate => one(Instruction::Duplicate, st),
        IrView::Pop => one(Instruction::Pop, st),
        IrView::Swap => one(Instruction::Swap, st),
        IrView::LoadConstNull => one(Instruction::LoadConstNull, st),
        IrView::LoadConstTrue => one(Instruction::LoadConstTrue, st),
        IrView::LoadConstFalse => one(Instruction::LoadConstFalse, st),
        IrView::LoadConstString { value } => match st.module.string_constant(value) {
            Ok((const_id, module)) => one(
                Instruction::LoadConstString { const_id },
                EmitState { module, ..st },
            ),
            Err(kind) => Err(kind),
        },
        IrView::LoadConstFunction { func } => match st.module.function_ref(func) {
            Ok((const_id, module)) => one(
                Instruction::LoadConstFunction { const_id },
                EmitState { module, ..st },
            ),
            Err(kind) => Err(kind),
        },
        IrView::LoadConstFloat { bits } => one(Instruction::LoadConstFloat { value: bits }, st),
        IrView::LoadValue { local } => match st.func.lookup_local(local) {
            Ok((slot, func)) => one(Instruction::LoadValue { local: slot }, EmitState { func, ..st }),
            Err(kind) => Err(kind),
        },
        IrView::StoreValue { local } => match st.func.lookup_local(local) {
            Ok((slot, func)) => one(
                Instruction::StoreValue { local: slot },
                EmitState { func, ..st },
            ),
            Err(kind) => Err(kind),
        },
        IrView::CallStatic { func } => match st.module.function_ref(func) {
            Ok((func_id, module)) => one(
                Instruction::CallStatic { func_id },
                EmitState { module, ..st },
            ),
            Err(kind) => Err(kind),
        },
        IrView::CallDynamic { param_count } => one(Instruction::CallDynamic { param_count }, st),
        IrView::BuildClosure { param_count, func } => match st.module.function_ref(func) {
            Ok((func_id, module)) => one(
                Instruction::BuildClosure { param_count, func_id },
                EmitState { module, ..st },
            ),
            Err(kind) => Err(kind),
        },
        IrView::BuildRecursiveFunction => one(Instruction::BuildRecursiveFunction, st),
        IrView::Return => one(Instruction::Return, st),
        IrView::Branch { then_block, else_block } => match emit_spec(st, then_block) {
            Err(kind) => Err(kind),
            Ok((then_code, st1)) => match emit_spec(st1, else_block) {
                Err(kind) => Err(kind),
                Ok((else_code, st2)) => if else_code.len() > i32::MAX || then_code.len()
                    >= i32::MAX {
                    Err(ErrorKind::BlockTooLong)
                } else {
                    let then_full = then_arm(then_code, else_code.len() as int);
                    Ok(
                        (
                            seq![Instruction::Branch { jump: then_full.len() as i32 }] + then_full
                                + else_code,
                            st2,
                        ),
                    )
                },
            },
        },
        IrView::Debug => one(Instruction::Debug, st),
        IrView::Error => one(Instruction::Error, st),
        IrView::FreeLocal { local } => match st.func.free(local) {
            Ok(func) => Ok((Seq::empty(), EmitState { func, ..st })),
            Err(kind) => Err(kind),
        },
    }
}

/// Every instruction of `code` that reads or writes a local names a slot
/// below `n`.
pub open spec fn locals_below(code: Seq<Instruction>, n: int) -> bool {
    forall|i: int|
        0 <= i < code.len() ==> match #[trigger] code[i] {
            Instruction::LoadValue { local } => local < n,
            Instruction::StoreValue { local } => local < n,
            _ => true,
        }
}

/// The state of the emitter as the two contexts hold it.
pub open spec fn state_of(context: ModuleContext, func: FuncContext) -> EmitState {
    EmitState { module: context@, func: func@ }
}

/// Emits the instructions for `block`. Beyond what `emit_spec` says: the
/// tables stay without doubles, and every local that the instructions name
/// has a slot below the number of slots.
pub fn compile_block(context: &mut ModuleContext, func: &mut FuncContext, block: &Vec<Ir>) -> (r:
    Result<Vec<Instruction>, LangError>)
    requires
        old(func).wf(),
        old(func)@.bounded(),
        old(context)@.unique(),
    ensures
        final(func).wf(),
        match r {
            Ok(code) => {
                &&& emit_spec(state_of(*old(context), *old(func)), views(block@)) == Ok::<
                    _,
                    ErrorKind,
                >((code@, state_of(*final(context), *final(func))))
                &&& final(func)@.bounded()
                &&& final(context)@.unique()
                &&& old(func)@.max_locals <= final(func)@.max_locals
                &&& locals_below(code@, final(func)@.max_locals as int)
            },
            Err(e) => match emit_spec(state_of(*old(context), *old(func)), views(block@)) {
                Err(kind) => e@ == error_of(kind),
                Ok(_) => false,
            },
        },
    decreases block, 0nat,
{
    let ghost whole = views(block@);
    let ghost start = state_of(*context, *func);
    let mut body: Vec<Instruction> = Vec::new();
    let mut i: usize = 0;
    proof {
        lemma_take_all(whole);
    }
    while i < block.len()
        invariant
            i <= block@.len(),
            whole == views(block@),
            start == state_of(*old(context), *old(func)),
            func.wf(),
            func@.bounded(),
            context@.unique(),
            old(func)@.max_locals <= func@.max_locals,
            locals_below(body@, func@.max_locals as int),
            emit_spec(start, whole.take(i as int)) == Ok::<_, ErrorKind>(
                (body@, state_of(*context, *func)),
            ),
        decreases block@.len() - i,
    {
        proof {
            broadcast use vstd::std_specs::vec::axiom_vec_index_decreases;

            lemma_take_last(whole, i + 1);
        }
        match compile_op(context, func, &block[i]) {
            Ok(more) => {
                let mut more = more;
                body.append(&mut more);
            },
            Err(e) => {
                proof {
                    lemma_emit_prefix_error(start, whole, i + 1);
                }
                return Err(e);
            },
        }
        i += 1;
    }
    proof {
        lemma_take_all(whole);
    }
    Ok(body)
}

/// Where the first `n` operations cannot be emitted, neither can all of them,
/// for the same reason.
pub proof fn lemma_emit_prefix_error(st: EmitState, body: Seq<IrView>, n: int)
    requires
        0 <= n <= body.len(),
        emit_spec(st, body.take(n)) is Err,
    ensures
        emit_spec(st, body) == emit_spec(st, body.take(n)),
    decreases body.len(),
{
    if n < body.len() {
        assert(body.drop_last().take(n) =~= body.take(n));
        lemma_emit_prefix_error(st, body.drop_last(), n);
    } else {
        lemma_take_all(body);
    }
}

/// Emits the instructions for one operation.
pub fn compile_op(context: &mut ModuleContext, func: &mut FuncContext, op: &Ir) -> (r: Result<
    Vec<Instruction>,
    LangError,
>)
    requires
        old(func).wf(),
        old(func)@.bounded(),
        old(context)@.unique(),
    ensures
        final(func).wf(),
        match r {
            Ok(code) => {
                &&& emit_op_spec(state_of(*old(context), *old(func)), op@) == Ok::<_, ErrorKind>(
                    (code@, state_of(*final(context), *final(func))),
                )
                &&& final(func)@.bounded()
                &&& final(context)@.unique()
                &&& old(func)@.max_locals <= final(func)@.max_locals
                &&& locals_below(code@, final(func)@.max_locals as int)
            },
            Err(e) => match emit_op_spec(state_of(*old(context), *old(func)), op@) {
                Err(kind) => e@ == error_of(kind),
                Ok(_) => false,
            },
        },
    decreases op, 1nat,
{
    proof {
        op.lemma_model();
    }
    match op {
        Ir::NoOp => Ok(single(Instruction::NoOp)),
        Ir::Duplicate => Ok(single(Instruction::Duplicate)),
        Ir::Pop => Ok(single(Instruction::Pop)),
        Ir::Swap => Ok(single(Instruction::Swap)),
        Ir::LoadConstNull => Ok(single(Instruction::LoadConstNull)),
        Ir::LoadConstTrue => Ok(single(Instruction::LoadConstTrue)),
        Ir::LoadConstFalse => Ok(single(Instruction::LoadConstFalse)),
        Ir::LoadConstString { value } => {
            proof {
                lemma_interned_distinct(context@.string_constants, value@);
            }
            let const_id = context.lookup_string_constant(value)?;
            Ok(single(Instruction::LoadConstString { const_id }))
        },
        Ir::LoadConstFunction { value } => {
            proof {
                lemma_interned_function(context@.function_refs, value@);
            }
            let const_id = context.lookup_function_ref(value)?;
            Ok(single(Instruction::LoadConstFunction { const_id }))
        },
        Ir::LoadConstFloat { value } => Ok(single(Instruction::LoadConstFloat { value: *value })),
        Ir::LoadValue { local } => {
            proof {
                lemma_lookup_local_bounded(func@, local@);
            }
            let slot = func.lookup_local(local)?;
            Ok(single(Instruction::LoadValue { local: slot }))
        },
        Ir::StoreValue { local } => {
            proof {
                lemma_lookup_local_bounded(func@, local@);
            }
            let slot = func.lookup_local(local)?;
            Ok(single(Instruction::StoreValue { local: slot }))
        },
        Ir::CallStatic { func: target } => {
            proof {
                lemma_interned_function(context@.function_refs, target@);
            }
            let func_id = context.lookup_function_ref(target)?;
            Ok(single(Instruction::CallStatic { func_id }))
        },
        Ir::CallDynamic { param_count } => Ok(
            single(Instruction::CallDynamic { param_count: *param_count }),
        ),
        Ir::BuildClosure { param_count, func: target } => {
            proof {
                lemma_interned_function(context@.function_refs, target@);
            }
            let func_id = context.lookup_function_ref(target)?;
            Ok(single(Instruction::BuildClosure { param_count: *param_count, func_id }))
        },
        Ir::BuildRecursiveFunction => Ok(single(Instruction::BuildRecursiveFunction)),
        Ir::Return => Ok(single(Instruction::Return)),
        Ir::Branch { then_block, else_block } => {
            let then_body = compile_block(context, func, then_block)?;
            let else_body = compile_block(context, func, else_block)?;
            join_arms(then_body, else_body)
        },
        Ir::Debug => Ok(single(Instruction::Debug)),
        Ir::Error => Ok(single(Instruction::Error)),
        Ir::FreeLocal { local } => {
            proof {
                lemma_lookup_local_bounded(func@, local@);
            }
            func.free(local)?;
            Ok(Vec::new())
        },
    }
}

/// The one instruction `instr`.
fn single(instr: Instruction) -> (r: Vec<Instruction>)
    ensures
        r@ == seq![instr],
{
    let mut v: Vec<Instruction> = Vec::new();
    v.push(instr);
    assert(v@ =~= seq![instr]);
    v
}

/// A branch with the emitted arms: the conditional jump, the then-arm with
/// its jump over the else-arm where it needs one, and the else-arm.
fn join_arms(then_body: Vec<Instruction>, else_body: Vec<Instruction>) -> (r: Result<
    Vec<Instruction>,
    LangError,
>)
    ensures
        match r {
            Ok(code) => else_body@.len() <= i32::MAX && then_body@.len() < i32::MAX && code@
                == seq![
                Instruction::Branch {
                    jump: then_arm(then_body@, else_body@.len() as int).len() as i32,
                },
            ] + then_arm(then_body@, else_body@.len() as int) + else_body@,
            Err(e) => (else_body@.len() > i32::MAX || then_body@.len() >= i32::MAX) && e@
                == error_of(ErrorKind::BlockTooLong),
        },
{
    let mut then_body = then_body;
    let mut else_body = else_body;
    if else_body.len() > i32::MAX as usize || then_body.len() >= i32::MAX as usize {
        return Err(LangError::of(ErrorKind::BlockTooLong));
    }
    let depth = then_body.len();
    let ends = depth > 0 && match then_body[depth - 1] {
        Instruction::Return => true,
        _ => false,
    };
    if !ends {
        then_body.push(Instruction::Jump { jump: else_body.len() as i32 });
    }
    let mut body: Vec<Instruction> = Vec::new();
    body.push(Instruction::Branch { jump: then_body.len() as i32 });
    body.append(&mut then_body);
    body.append(&mut else_body);
    Ok(body)
}

/// The function `f` of the module `module` of `package` as flat code, and
/// the module's tables after it was emitted: its body goes through the three
/// passes of the optimizer, then through the emitter.
pub open spec fn compile_function_spec(
    ctx: ModuleContextView,
    package: Seq<char>,
    module: Seq<char>,
    name: Seq<char>,
    f: IrFunctionView,
) -> Result<(BitFunctionView, ModuleContextView), ErrorKind> {
    if f.args.len() > u16::MAX {
        Err(ErrorKind::TooManyLocals)
    } else {
        match emit_spec(
            EmitState { module: ctx, func: FuncContextView::start(f.args) },
            optimize_spec(f.body),
        ) {
            Err(kind) => Err(kind),
            Ok((code, st)) => Ok(
                (
                    BitFunctionView {
                        func_ref: FunctionRefView { package, module, name, shape: f.shape },
                        max_locals: st.func.max_locals,
                        body: code,
                        source: Seq::empty(),
                    },
                    st.module,
                ),
            ),
        }
    }
}

/// The first `n` functions of `m` as flat code, by name, and the module's
/// tables after them.
pub open spec fn compile_functions_spec(m: IrModuleView, n: int) -> Result<
    (Table<RunFunctionView>, ModuleContextView),
    ErrorKind,
>
    decreases n,
{
    if n <= 0 {
        Ok((Table::empty(), ModuleContextView::empty()))
    } else {
        match compile_functions_spec(m, n - 1) {
            Err(kind) => Err(kind),
            Ok((done, ctx)) => match compile_function_spec(
                ctx,
                m.package,
                m.name,
                m.functions.names[n - 1],
                m.functions.values[n - 1],
            ) {
                Err(kind) => Err(kind),
                Ok((f, next)) => Ok(
                    (done.insert(m.functions.names[n - 1], RunFunctionView::BitFunction(f)), next),
                ),
            },
        }
    }
}

/// The module `m` as flat code: its functions in their order, and the tables
/// of the constants that they use.
pub open spec fn compile_spec(m: IrModuleView) -> Result<BitModuleView, ErrorKind> {
    match compile_functions_spec(m, m.functions.names.len() as int) {
        Err(kind) => Err(kind),
        Ok((functions, ctx)) => Ok(
            BitModuleView {
                string_constants: ctx.string_constants,
                function_refs: ctx.function_refs,
                functions,
                shape_refs: ctx.shape_refs,
            },
        ),
    }
}

/// Where the first `n` functions cannot be compiled, neither can the first
/// `k`, for `k` from `n` on, for the same reason.
pub proof fn lemma_compile_prefix_error(m: IrModuleView, n: int, k: int)
    requires
        n <= k,
        compile_functions_spec(m, n) is Err,
    ensures
        compile_functions_spec(m, k) == compile_functions_spec(m, n),
    decreases k - n,
{
    if n < k {
        lemma_compile_prefix_error(m, n, k - 1);
    }
}

/// Whether the code of `f`, where it is compiled code, names no local slot
/// at or beyond the number of slots that `f` asks for.
pub open spec fn slots_fit(f: RunFunctionView) -> bool {
    match f {
        RunFunctionView::BitFunction(code) => locals_below(code.body, code.max_locals as int),
        RunFunctionView::NativeFunction(_) => true,
    }
}

/// Whether every function of `functions` has its slots.
pub open spec fn all_slots_fit(functions: Table<RunFunctionView>) -> bool {
    forall|i: int| 0 <= i < functions.values.len() ==> slots_fit(#[trigger] functions.values[i])
}

/// Whether no table of the module holds a constant twice: no string, no
/// shape, and no function by package, module and name.
pub open spec fn constants_unique(m: BitModuleView) -> bool {
    &&& distinct(m.string_constants)
    &&& distinct(m.shape_refs)
    &&& distinct(keys_of(m.function_refs))
}

/// Compiles a module to flat code. Every function is optimized and emitted,
/// in the order in which the module holds them; all share the module's three
/// tables of constants. In what comes out no table holds a constant twice,
/// and no function names a local slot at or beyond its `max_locals`.
pub fn compile(module: IrModule) -> (r: Result<BitModule, LangError>)
    requires
        module.functions.wf(),
    ensures
        match r {
            Ok(m) => {
                &&& compile_spec(module@) == Ok::<_, ErrorKind>(m@)
                &&& m.wf()
                &&& constants_unique(m@)
                &&& all_slots_fit(m@.functions)
            },
            Err(e) => match compile_spec(module@) {
                Err(kind) => e@ == error_of(kind),
                Ok(_) => false,
            },
        },
{
    let mut context = ModuleContext::new();
    let optimizer = Optimizer::new();
    let mut functions: NameMap<RunFunction> = NameMap::new();
    let count = module.functions.len();
    let mut i: usize = 0;
    while i < count
        invariant
            i <= count,
            count == module.functions.names@.len(),
            module.functions.wf(),
            optimizer.ops@ == crate::optimize::passes::standard_passes(),
            functions.wf(),
            context@.unique(),
            all_slots_fit(functions@),
            compile_functions_spec(module@, i as int) == Ok::<_, ErrorKind>((functions@, context@)),
        decreases count - i,
    {
        let ghost m = module@;
        let ghost before = functions@;
        let mut raw_func = module.functions.values[i].clone();
        let name = module.functions.names[i].clone();
        proof {
            lemma_standard_passes(raw_func@.body);
            assert(m.functions.names[i as int] == name@);
            assert(m.functions.values[i as int] == raw_func@);
        }
        optimizer.optimize(&mut raw_func);
        if raw_func.args.len() > u16::MAX as usize {
            proof {
                lemma_compile_prefix_error(m, i + 1, count as int);
            }
            return Err(LangError::of(ErrorKind::TooManyLocals));
        }
        let mut func_context = FuncContext::new(&raw_func.args);
        let body = match compile_block(&mut context, &mut func_context, &raw_func.body) {
            Ok(body) => body,
            Err(e) => {
                proof {
                    lemma_compile_prefix_error(m, i + 1, count as int);
                }
                return Err(e);
            },
        };
        let compiled = BitFunction {
            func_ref: FunctionRef {
                package: module.package.clone(),
                module: module.name.clone(),
                name: name.clone(),
                shape: raw_func.shape.clone(),
            },
            max_locals: func_context.max_locals,
            body,
            source: Vec::new(),
        }.wrap();
        proof {
            assert(slots_fit(compiled@));
            lemma_index_of(before.names, name@);
        }
        functions.insert(name, compiled);
        proof {
            assert forall|j: int| 0 <= j < functions@.values.len() implies slots_fit(
                #[trigger] functions@.values[j],
            ) by {
                if functions.values@[j] == compiled {
                } else {
                    assert(functions.values@[j]@ == before.values[j]);
                }
            }
        }
        i += 1;
    }
    let ModuleContext { function_refs, shape_refs, string_constants } = context;
    Ok(BitModule { string_constants, function_refs, shape_refs, functions })
}

/// The character of a module name that stands for the character `c` of a
/// path: a dot for a slash of either kind, and else `c` itself.
pub open spec fn name_char(c: char) -> char {
    if c == '/' || c == '\\' {
        '.'
    } else {
        c
    }
}

/// The name of the module that the source file at `path` defines, `path`
/// counted from the root of the sources: the path without its ending `.let`,
/// with a dot for every slash. `None` where the path does not end so.
pub open spec fn module_name_spec(path: Seq<char>) -> Option<Seq<char>> {
    if path.len() >= 4 && path.subrange(path.len() - 4, path.len() as int) == ".let"@ {
        Some(Seq::new((path.len() - 4) as nat, |i: int| name_char(path[i])))
    } else {
        None
    }
}

/// The name of the module that the source file at `path` defines: the file
/// `a/b/c.let` defines the module `a.b.c`.
pub fn module_name(path: &str) -> (r: Option<String>)
    ensures
        match r {
            Some(name) => module_name_spec(path@) == Some(name@),
            None => module_name_spec(path@) is None,
        },
{
    let len = path.unicode_len();
    if len < 4 {
        return None;
    }
    let ending = String::from_str(path.substring_char(len - 4, len));
    if !crate::support::text_is(&ending, ".let") {
        return None;
    }
    let stem = len - 4;
    let mut out = String::new();
    let mut i: usize = 0;
    proof {
        reveal_strlit(".");
    }
    while i < stem
        invariant
            i <= stem,
            stem + 4 == path@.len(),
            "."@ == seq!['.'],
            out@ == Seq::new(i as nat, |j: int| name_char(path@[j])),
        decreases stem - i,
    {
        let c = path.get_char(i);
        let ghost before = out@;
        if c == '/' || c == '\\' {
            out.append(".");
        } else {
            out.append(path.substring_char(i, i + 1));
            assert(path@.subrange(i as int, i + 1) =~= seq![c]);
        }
        assert(out@ =~= Seq::new((i + 1) as nat, |j: int| name_char(path@[j])));
        i += 1;
    }
    Some(out)
}

/// Whether `name` is the name of the package that holds the built-in
/// functions, which no other package may have.
pub fn is_reserved_package(name: &str) -> (r: bool)
    ensures
        r == (name@ == "Core"@),
{
    let held = String::from_str(name);
    crate::support::text_is(&held, "Core")
}

} // verus!
