use vstd::prelude::*;
use crate::shapes::{ShapeView, fill_each, fill_spec, unwrap_all};

verus! {

/// Whether the shape is fully filled: no part of it is a name or unknown.
pub open spec fn resolved(s: ShapeView) -> bool
    decreases s,
{
    match s {
        ShapeView::GenericCtor { base, arity } => resolved(*base),
        ShapeView::Generic { base, args } => resolved(*base) && forall|i: int|
            0 <= i < args.len() ==> resolved(#[trigger] args[i]),
        ShapeView::Function { args, result } => resolved(*result) && forall|i: int|
            0 <= i < args.len() ==> resolved(#[trigger] args[i]),
        ShapeView::Base { kind } => true,
        ShapeView::Named { name } => false,
        ShapeView::Unknown => false,
    }
}

/// Whether no part of the shape is unknown.
pub open spec fn known(s: ShapeView) -> bool
    decreases s,
{
    match s {
        ShapeView::GenericCtor { base, arity } => known(*base),
        ShapeView::Generic { base, args } => known(*base) && forall|i: int|
            0 <= i < args.len() ==> known(#[trigger] args[i]),
        ShapeView::Function { args, result } => known(*result) && forall|i: int|
            0 <= i < args.len() ==> known(#[trigger] args[i]),
        ShapeView::Base { kind } => true,
        ShapeView::Named { name } => true,
        ShapeView::Unknown => false,
    }
}

/// Whether the shape can stand in a declaration: it is left open as a whole,
/// or no part of it is.
pub open spec fn declarable(s: ShapeView) -> bool {
    s is Unknown || known(s)
}

/// A fully filled shape has no unknown part.
pub proof fn lemma_resolved_known(s: ShapeView)
    requires
        resolved(s),
    ensures
        known(s),
    decreases s,
{
    match s {
        ShapeView::GenericCtor { base, arity } => {
            lemma_resolved_known(*base);
        },
        ShapeView::Generic { base, args } => {
            lemma_resolved_known(*base);
            assert forall|i: int| 0 <= i < args.len() implies known(#[trigger] args[i]) by {
                lemma_resolved_known(args[i]);
            }
        },
        ShapeView::Function { args, result } => {
            lemma_resolved_known(*result);
            assert forall|i: int| 0 <= i < args.len() implies known(#[trigger] args[i]) by {
                lemma_resolved_known(args[i]);
            }
        },
        _ => {},
    }
}

/// Filling a shape without unknown parts gives a fully filled shape.
pub proof fn lemma_fill_resolves(s: ShapeView)
    requires
        known(s),
        fill_spec(s) is Some,
    ensures
        resolved(fill_spec(s).unwrap()),
    decreases s,
{
    match s {
        ShapeView::GenericCtor { base, arity } => {
            lemma_fill_resolves(*base);
        },
        ShapeView::Generic { base, args } => {
            lemma_fill_resolves(*base);
            let filled = fill_each(args);
            assert forall|i: int| 0 <= i < args.len() implies resolved(
                #[trigger] unwrap_all(filled)[i],
            ) by {
                assert(filled[i] is Some);
                lemma_fill_resolves(args[i]);
            }
        },
        ShapeView::Function { args, result } => {
            lemma_fill_resolves(*result);
            let filled = fill_each(args);
            assert forall|i: int| 0 <= i < args.len() implies resolved(
                #[trigger] unwrap_all(filled)[i],
            ) by {
                assert(filled[i] is Some);
                lemma_fill_resolves(args[i]);
            }
        },
        ShapeView::Named { name } => {},
        _ => {},
    }
}

/// Filling a fully filled shape changes nothing.
pub proof fn lemma_fill_resolved(s: ShapeView)
    requires
        resolved(s),
    ensures
        fill_spec(s) == Some(s),
    decreases s,
{
    match s {
        ShapeView::GenericCtor { base, arity } => {
            lemma_fill_resolved(*base);
        },
        ShapeView::Generic { base, args } => {
            lemma_fill_resolved(*base);
            let filled = fill_each(args);
            assert forall|i: int| 0 <= i < args.len() implies (#[trigger] filled[i]) == Some(
                args[i],
            ) by {
                lemma_fill_resolved(args[i]);
            }
            assert(unwrap_all(filled) =~= args);
        },
        ShapeView::Function { args, result } => {
            lemma_fill_resolved(*result);
            let filled = fill_each(args);
            assert forall|i: int| 0 <= i < args.len() implies (#[trigger] filled[i]) == Some(
                args[i],
            ) by {
                lemma_fill_resolved(args[i]);
            }
            assert(unwrap_all(filled) =~= args);
        },
        _ => {},
    }
}

/// Filling twice gives what filling once gives, for a shape without unknown
/// parts.
pub proof fn lemma_fill_twice(s: ShapeView)
    requires
        known(s),
        fill_spec(s) is Some,
    ensures
        fill_spec(fill_spec(s).unwrap()) == fill_spec(s),
{
    lemma_fill_resolves(s);
    lemma_fill_resolved(fill_spec(s).unwrap());
}

} // verus!
