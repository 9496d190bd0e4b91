use vstd::prelude::*;
use crate::ast::{Parameter, ParameterView, clone_parameters};
use crate::bytecode::{FunctionRef, FunctionRefView, LocalId};
use crate::shapes::{Shape, ShapeView};
use crate::support::{
    views,
    backwards,
    lemma_push_add,
    lemma_take_all,
    lemma_views_drop_last,
    lemma_views_push,
    NameMap,
    Table,
};

verus! {

/// One operation of the intermediate representation: the stack machine's
/// operations over named locals, with a branch that holds its two arms. A
/// number constant is held as the 64 bits of its binary representation.
#[derive(Debug)]
#[allow(inconsistent_fields)]
pub enum Ir {
    NoOp,
    Duplicate,
    Pop,
    Swap,
    LoadConstNull,
    LoadConstTrue,
    LoadConstFalse,
    LoadConstString { value: String },
    LoadConstFunction { value: FunctionRef },
    LoadConstFloat { value: u64 },
    LoadValue { local: String },
    StoreValue { local: String },
    CallStatic { func: FunctionRef },
    CallDynamic { param_count: LocalId },
    BuildClosure { param_count: LocalId, func: FunctionRef },
    BuildRecursiveFunction,
    Return,
    Branch { then_block: Vec<Ir>, else_block: Vec<Ir> },
    Debug,
    Error,
    FreeLocal { local: String },
}

/// The mathematical value of an [`Ir`].
#[allow(inconsistent_fields)]
pub enum IrView {
    NoOp,
    Duplicate,
    Pop,
    Swap,
    LoadConstNull,
    LoadConstTrue,
    LoadConstFalse,
    LoadConstString { value: Seq<char> },
    LoadConstFunction { func: FunctionRefView },
    LoadConstFloat { bits: u64 },
    LoadValue { local: Seq<char> },
    StoreValue { local: Seq<char> },
    CallStatic { func: FunctionRefView },
    CallDynamic { param_count: LocalId },
    BuildClosure { param_count: LocalId, func: FunctionRefView },
    BuildRecursiveFunction,
    Return,
    Branch { then_block: Seq<IrView>, else_block: Seq<IrView> },
    Debug,
    Error,
    FreeLocal { local: Seq<char> },
}

impl Ir {
    /// The operation with every sequence and string in it taken by its view.
    pub open spec fn model(self) -> IrView
        decreases self,
    {
        match self {
            Ir::NoOp => IrView::NoOp,
            Ir::Duplicate => IrView::Duplicate,
            Ir::Pop => IrView::Pop,
            Ir::Swap => IrView::Swap,
            Ir::LoadConstNull => IrView::LoadConstNull,
            Ir::LoadConstTrue => IrView::LoadConstTrue,
            Ir::LoadConstFalse => IrView::LoadConstFalse,
            Ir::LoadConstString { value } => IrView::LoadConstString { value: value@ },
            Ir::LoadConstFunction { value } => IrView::LoadConstFunction { func: value@ },
            Ir::LoadConstFloat { value } => IrView::LoadConstFloat { bits: value },
            Ir::LoadValue { local } => IrView::LoadValue { local: local@ },
            Ir::StoreValue { local } => IrView::StoreValue { local: local@ },
            Ir::CallStatic { func } => IrView::CallStatic { func: func@ },
            Ir::CallDynamic { param_count } => IrView::CallDynamic { param_count },
            Ir::BuildClosure { param_count, func } => IrView::BuildClosure {
                param_count,
                func: func@,
            },
            Ir::BuildRecursiveFunction => IrView::BuildRecursiveFunction,
            Ir::Return => IrView::Return,
            Ir::Branch { then_block, else_block } => IrView::Branch {
                then_block: Seq::new(
                    then_block@.len(),
                    |i: int|
                        if 0 <= i < then_block@.len() {
                            then_block@[i].model()
                        } else {
                            IrView::NoOp
                        },
                ),
                else_block: Seq::new(
                    else_block@.len(),
                    |i: int|
                        if 0 <= i < else_block@.len() {
                            else_block@[i].model()
                        } else {
                            IrView::NoOp
                        },
                ),
            },
            Ir::Debug => IrView::Debug,
            Ir::Error => IrView::Error,
            Ir::FreeLocal { local } => IrView::FreeLocal { local: local@ },
        }
    }

    /// The arms of a branch are seen operation by operation.
    pub proof fn lemma_model(self)
        ensures
            match self {
                Ir::Branch { then_block, else_block } => self@ == (IrView::Branch {
                    then_block: views(then_block@),
                    else_block: views(else_block@),
                }),
                _ => true,
            },
    {
        match self {
            Ir::Branch { then_block, else_block } => {
                assert(self@->then_block =~= views(then_block@));
                assert(self@->else_block =~= views(else_block@));
            },
            _ => {},
        }
    }
}

impl View for Ir {
    type V = IrView;

    open spec fn view(&self) -> IrView {
        self.model()
    }
}

/// A copy of each operation of `block`, in order.
#[verifier::loop_isolation(false)]
pub fn clone_block(block: &Vec<Ir>) -> (r: Vec<Ir>)
    ensures
        views(r@) == views(block@),
    decreases block, 0nat,
{
    let mut out: Vec<Ir> = Vec::new();
    let mut i: usize = 0;
    while i < block.len()
        invariant
            i <= block.len(),
            out@.len() == i,
            forall|j: int| 0 <= j < i ==> out@[j]@ == block@[j]@,
        decreases block.len() - i,
    {
        proof {
            broadcast use vstd::std_specs::vec::axiom_vec_index_decreases;

        }
        out.push(block[i].clone());
        i += 1;
    }
    assert(views(out@) =~= views(block@));
    out
}

impl Clone for Ir {
    fn clone(&self) -> (r: Self)
        ensures
            r@ == self@,
        decreases self, 1nat,
    {
        match self {
            Ir::NoOp => Ir::NoOp,
            Ir::Duplicate => Ir::Duplicate,
            Ir::Pop => Ir::Pop,
            Ir::Swap => Ir::Swap,
            Ir::LoadConstNull => Ir::LoadConstNull,
            Ir::LoadConstTrue => Ir::LoadConstTrue,
            Ir::LoadConstFalse => Ir::LoadConstFalse,
            Ir::LoadConstString { value } => Ir::LoadConstString { value: value.clone() },
            Ir::LoadConstFunction { value } => Ir::LoadConstFunction { value: value.clone() },
            Ir::LoadConstFloat { value } => Ir::LoadConstFloat { value: *value },
            Ir::LoadValue { local } => Ir::LoadValue { local: local.clone() },
            Ir::StoreValue { local } => Ir::StoreValue { local: local.clone() },
            Ir::CallStatic { func } => Ir::CallStatic { func: func.clone() },
            Ir::CallDynamic { param_count } => Ir::CallDynamic { param_count: *param_count },
            Ir::BuildClosure { param_count, func } => Ir::BuildClosure {
                param_count: *param_count,
                func: func.clone(),
            },
            Ir::BuildRecursiveFunction => Ir::BuildRecursiveFunction,
            Ir::Return => Ir::Return,
            Ir::Branch { then_block, else_block } => {
                let r = Ir::Branch {
                    then_block: clone_block(then_block),
                    else_block: clone_block(else_block),
                };
                proof {
                    r.lemma_model();
                    self.lemma_model();
                }
                r
            },
            Ir::Debug => Ir::Debug,
            Ir::Error => Ir::Error,
            Ir::FreeLocal { local } => Ir::FreeLocal { local: local.clone() },
        }
    }
}

/// A branch with the arms `then_block` and `else_block`.
pub fn branch(then_block: Vec<Ir>, else_block: Vec<Ir>) -> (r: Ir)
    ensures
        r@ == (IrView::Branch { then_block: views(then_block@), else_block: views(else_block@) }),
{
    let r = Ir::Branch { then_block, else_block };
    proof {
        r.lemma_model();
    }
    r
}

/// `v` from its last item to its first.
pub fn reversed(v: Vec<Ir>) -> (r: Vec<Ir>)
    ensures
        views(r@) == backwards(views(v@)),
{
    let ghost given = views(v@);
    let mut v = v;
    let mut out: Vec<Ir> = Vec::new();
    proof {
        assert(views(out@) =~= Seq::<IrView>::empty());
        assert(backwards(views(out@)) =~= Seq::<IrView>::empty());
        lemma_take_all(backwards(given));
    }
    while v.len() > 0
        invariant
            backwards(given) == views(out@) + backwards(views(v@)),
        decreases v@.len(),
    {
        let ghost before = views(v@);
        let ghost done = views(out@);
        let ghost old_out = out@;
        let ghost old_v = v@;
        let x = v.pop().unwrap();
        proof {
            lemma_views_drop_last(old_v);
        }
        out.push(x);
        proof {
            assert(v@ == old_v.drop_last());
            assert(views(v@) == before.drop_last());
            assert(x@ == before.last());
            lemma_views_push(old_out, x);
            lemma_push_add(done, x@, backwards(views(v@)));
        }
    }
    proof {
        lemma_take_all(views(out@));
    }
    out
}

/// A function in the intermediate representation. Its locals start with
/// `args`: what it captured, itself if it is recursive, and its arguments.
#[derive(Debug)]
pub struct IrFunction {
    pub func_ref: FunctionRef,
    pub args: Vec<Parameter>,
    pub body: Vec<Ir>,
    pub shape: Shape,
}

/// The mathematical value of an [`IrFunction`].
pub struct IrFunctionView {
    pub func_ref: FunctionRefView,
    pub args: Seq<ParameterView>,
    pub body: Seq<IrView>,
    pub shape: ShapeView,
}

impl View for IrFunction {
    type V = IrFunctionView;

    open spec fn view(&self) -> IrFunctionView {
        IrFunctionView {
            func_ref: self.func_ref@,
            args: views(self.args@),
            body: views(self.body@),
            shape: self.shape@,
        }
    }
}

impl Clone for IrFunction {
    fn clone(&self) -> (r: Self)
        ensures
            r@ == self@,
    {
        IrFunction {
            func_ref: self.func_ref.clone(),
            args: clone_parameters(&self.args),
            body: clone_block(&self.body),
            shape: self.shape.clone(),
        }
    }
}

/// A module in the intermediate representation.
#[derive(Debug)]
pub struct IrModule {
    pub package: String,
    pub name: String,
    pub functions: NameMap<IrFunction>,
}

/// The mathematical value of an [`IrModule`].
pub struct IrModuleView {
    pub package: Seq<char>,
    pub name: Seq<char>,
    pub functions: Table<IrFunctionView>,
}

impl View for IrModule {
    type V = IrModuleView;

    open spec fn view(&self) -> IrModuleView {
        IrModuleView { package: self.package@, name: self.name@, functions: self.functions@ }
    }
}

impl IrModule {
    /// The shape of the function `name`.
    pub fn lookup(&self, name: &String) -> (r: Option<Shape>)
        requires
            self.functions.wf(),
        ensures
            match r {
                Some(shape) => self@.functions.get(name@) is Some && shape@ == self@.functions.get(
                    name@,
                ).unwrap().shape,
                None => self@.functions.get(name@) is None,
            },
    {
        match self.functions.get(name) {
            Some(func) => Some(func.shape.clone()),
            None => None,
        }
    }

    /// The names of the functions, in order.
    pub fn list_values(&self) -> (r: Vec<String>)
        ensures
            views(r@) == self@.functions.names,
    {
        let mut out: Vec<String> = Vec::new();
        let mut i: usize = 0;
        while i < self.functions.names.len()
            invariant
                i <= self.functions.names@.len(),
                out@.len() == i,
                forall|j: int| 0 <= j < i ==> out@[j]@ == self.functions.names@[j]@,
            decreases self.functions.names@.len() - i,
        {
            out.push(self.functions.names[i].clone());
            i += 1;
        }
        assert(views(out@) =~= self@.functions.names);
        out
    }
}

} // verus!
