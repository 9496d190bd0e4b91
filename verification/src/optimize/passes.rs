use vstd::prelude::*;
use crate::ir::{IrFunction, IrFunctionView, IrView};
use crate::optimize::free_local_optimizer::{free_local_opt, free_local_spec};
use crate::optimize::lift_return_optimizer::{lift_return_opt, lift_return_spec};
use crate::optimize::load_store_optimizer::{load_store_opt, load_store_spec};

verus! {

/// One pass over the body of a function.
#[derive(Debug, Clone, Copy, PartialEq, Eq, Structural)]
pub enum Pass {
    LiftReturn,
    FreeLocal,
    LoadStore,
}

/// The body after one pass.
pub open spec fn pass_spec(pass: Pass, body: Seq<IrView>) -> Seq<IrView> {
    match pass {
        Pass::LiftReturn => lift_return_spec(body),
        Pass::FreeLocal => free_local_spec(body),
        Pass::LoadStore => load_store_spec(body),
    }
}

/// The body after the passes `ops`, one after the other.
pub open spec fn passes_spec(ops: Seq<Pass>, body: Seq<IrView>) -> Seq<IrView>
    decreases ops.len(),
{
    if ops.len() == 0 {
        body
    } else {
        pass_spec(ops.last(), passes_spec(ops.drop_last(), body))
    }
}

/// The three passes in their order: lift returns, mark free locals, fold
/// loads into stores.
pub open spec fn standard_passes() -> Seq<Pass> {
    seq![Pass::LiftReturn, Pass::FreeLocal, Pass::LoadStore]
}

/// The body after the three passes.
pub open spec fn optimize_spec(body: Seq<IrView>) -> Seq<IrView> {
    load_store_spec(free_local_spec(lift_return_spec(body)))
}

/// The three standard passes give what `optimize_spec` says.
pub proof fn lemma_standard_passes(body: Seq<IrView>)
    ensures
        passes_spec(standard_passes(), body) == optimize_spec(body),
{
    let ops = standard_passes();
    assert(ops.drop_last() =~= seq![Pass::LiftReturn, Pass::FreeLocal]);
    assert(ops.drop_last().drop_last() =~= seq![Pass::LiftReturn]);
    assert(ops.drop_last().drop_last().drop_last() =~= Seq::<Pass>::empty());
    reveal_with_fuel(passes_spec, 4);
}

/// The passes that are applied to every function before code is emitted.
#[derive(Debug)]
pub struct Optimizer {
    pub ops: Vec<Pass>,
}

impl Optimizer {
    /// The optimizer with the three standard passes.
    pub fn new() -> (r: Optimizer)
        ensures
            r.ops@ == standard_passes(),
    {
        let mut ops: Vec<Pass> = Vec::new();
        ops.push(Pass::LiftReturn);
        ops.push(Pass::FreeLocal);
        ops.push(Pass::LoadStore);
        assert(ops@ =~= standard_passes());
        Optimizer { ops }
    }

    /// Applies every pass to `func`, in the order in which they were
    /// registered. Only the body changes.
    pub fn optimize(&self, func: &mut IrFunction)
        ensures
            final(func)@ == (IrFunctionView {
                body: passes_spec(self.ops@, old(func)@.body),
                ..old(func)@
            }),
    {
        let ghost start = func@;
        let mut i: usize = 0;
        while i < self.ops.len()
            invariant
                i <= self.ops@.len(),
                func@ == (IrFunctionView {
                    body: passes_spec(self.ops@.take(i as int), start.body),
                    ..start
                }),
            decreases self.ops@.len() - i,
        {
            match self.ops[i] {
                Pass::LiftReturn => lift_return_opt(func),
                Pass::FreeLocal => free_local_opt(func),
                Pass::LoadStore => load_store_opt(func),
            }
            proof {
                assert(self.ops@.take(i + 1).drop_last() =~= self.ops@.take(i as int));
            }
            i += 1;
        }
        proof {
            assert(self.ops@.take(i as int) =~= self.ops@);
        }
    }

    /// Adds `pass` behind the passes that are there.
    pub fn register(&mut self, pass: Pass)
        ensures
            final(self).ops@ == old(self).ops@.push(pass),
    {
        self.ops.push(pass);
    }
}

} // verus!
