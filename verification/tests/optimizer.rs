use let_lang::bytecode::FunctionRef;
use let_lang::ir::{Ir, IrFunction};
use let_lang::optimize::free_local_optimizer::{free_local, free_local_opt};
use let_lang::optimize::lift_return_optimizer::{lift_return, lift_return_opt};
use let_lang::optimize::load_store_optimizer::{load_store, load_store_opt};
use let_lang::optimize::passes::{Optimizer, Pass};
use let_lang::shapes::{shape_float, shape_function};

fn load(name: &str) -> Ir {
    Ir::LoadValue { local: String::from(name) }
}

fn store(name: &str) -> Ir {
    Ir::StoreValue { local: String::from(name) }
}

fn free(name: &str) -> Ir {
    Ir::FreeLocal { local: String::from(name) }
}

fn branch(then_block: Vec<Ir>, else_block: Vec<Ir>) -> Ir {
    Ir::Branch { then_block, else_block }
}

fn number(value: f64) -> Ir {
    Ir::LoadConstFloat { value: value.to_bits() }
}

fn show(body: &Vec<Ir>) -> String {
    format!("{:?}", body)
}

fn function(body: Vec<Ir>) -> IrFunction {
    let shape = shape_function(vec![], shape_float());
    IrFunction {
        func_ref: FunctionRef {
            package: String::from("p"),
            module: String::from("m"),
            name: String::from("f"),
            shape: shape.clone(),
        },
        args: vec![],
        body,
        shape,
    }
}

#[test]
fn lift_moves_a_return_into_both_arms() {
    let body = vec![Ir::LoadConstTrue, branch(vec![number(1.0)], vec![number(2.0)]), Ir::Return];
    let wanted = vec![
        Ir::LoadConstTrue,
        branch(vec![number(1.0), Ir::Return], vec![number(2.0), Ir::Return]),
    ];
    assert_eq!(show(&lift_return(&body, false)), show(&wanted));
}

#[test]
fn lift_goes_on_inside_the_arms_it_gave_a_return() {
    let inner = branch(vec![number(1.0)], vec![number(2.0)]);
    let body = vec![branch(vec![Ir::LoadConstTrue, inner], vec![number(3.0)]), Ir::Return];
    let lifted_inner = branch(vec![number(1.0), Ir::Return], vec![number(2.0), Ir::Return]);
    let wanted = vec![branch(vec![Ir::LoadConstTrue, lifted_inner], vec![number(3.0), Ir::Return])];
    assert_eq!(show(&lift_return(&body, false)), show(&wanted));
}

#[test]
fn lift_leaves_a_branch_without_a_return_behind_it() {
    let body = vec![branch(vec![branch(vec![], vec![]), Ir::Return], vec![]), Ir::Pop, Ir::Return];
    assert_eq!(show(&lift_return(&body, false)), show(&body));
}

#[test]
fn lift_takes_only_the_return_that_follows_the_branch() {
    let body = vec![branch(vec![], vec![Ir::Pop]), Ir::Return, Ir::Return];
    let wanted = vec![branch(vec![Ir::Return], vec![Ir::Pop, Ir::Return]), Ir::Return];
    assert_eq!(show(&lift_return(&body, false)), show(&wanted));
}

#[test]
fn lift_of_nothing_is_nothing() {
    assert_eq!(show(&lift_return(&vec![], false)), "[]");
    assert_eq!(show(&lift_return(&vec![], true)), show(&vec![Ir::Return]));
    assert_eq!(show(&lift_return(&vec![Ir::Return], false)), show(&vec![Ir::Return]));
}

#[test]
fn lift_opt_changes_the_body_only() {
    let mut f = function(vec![branch(vec![number(1.0)], vec![number(2.0)]), Ir::Return]);
    lift_return_opt(&mut f);
    let wanted = vec![branch(vec![number(1.0), Ir::Return], vec![number(2.0), Ir::Return])];
    assert_eq!(show(&f.body), show(&wanted));
    assert_eq!(f.func_ref.name, "f");
    assert!(f.args.is_empty());
}

#[test]
fn free_local_marks_the_last_load_of_each_local() {
    let body = vec![load("x"), load("y"), load("x"), Ir::Return];
    let wanted = vec![load("x"), load("y"), free("y"), load("x"), free("x"), Ir::Return];
    assert_eq!(show(&free_local(&body, &vec![])), show(&wanted));
}

#[test]
fn free_local_skips_what_is_known_already() {
    let body = vec![load("x"), load("y")];
    let wanted = vec![load("x"), load("y"), free("y")];
    assert_eq!(show(&free_local(&body, &vec![String::from("x")])), show(&wanted));
}

#[test]
fn free_local_marks_each_arm_with_what_is_known_at_the_branch() {
    let body = vec![load("a"), branch(vec![load("a"), load("b")], vec![load("b")]), load("b")];
    let wanted = vec![
        load("a"),
        free("a"),
        branch(vec![load("a"), free("a"), load("b")], vec![load("b")]),
        load("b"),
        free("b"),
    ];
    assert_eq!(show(&free_local(&body, &vec![])), show(&wanted));
}

#[test]
fn free_local_of_a_body_without_loads_changes_nothing() {
    let body = vec![number(1.0), store("x"), branch(vec![Ir::Pop], vec![]), Ir::Return];
    assert_eq!(show(&free_local(&body, &vec![])), show(&body));
    assert_eq!(show(&free_local(&vec![], &vec![])), "[]");
}

#[test]
fn free_local_opt_starts_with_nothing_known() {
    let mut f = function(vec![load("x"), Ir::Return]);
    free_local_opt(&mut f);
    assert_eq!(show(&f.body), show(&vec![load("x"), free("x"), Ir::Return]));
}

#[test]
fn load_store_drops_store_load_free_of_one_local() {
    let body = vec![number(1.0), store("x"), load("x"), free("x"), Ir::Return];
    let wanted = vec![number(1.0), Ir::Return];
    assert_eq!(show(&load_store(&body)), show(&wanted));
}

#[test]
fn load_store_duplicates_before_a_store_that_is_read_at_once() {
    let body = vec![number(1.0), store("x"), load("x"), number(2.0), load("x")];
    let wanted = vec![number(1.0), Ir::Duplicate, store("x"), number(2.0), load("x")];
    assert_eq!(show(&load_store(&body)), show(&wanted));
}

#[test]
fn load_store_needs_three_operations() {
    let body = vec![number(1.0), store("x"), load("x")];
    assert_eq!(show(&load_store(&body)), show(&body));
    let short = vec![store("x")];
    assert_eq!(show(&load_store(&short)), show(&short));
    assert_eq!(show(&load_store(&vec![])), "[]");
}

#[test]
fn load_store_leaves_other_locals_alone() {
    let body = vec![store("x"), load("y"), free("y"), Ir::Return];
    assert_eq!(show(&load_store(&body)), show(&body));
}

#[test]
fn load_store_duplicates_when_another_local_is_freed_behind_the_load() {
    let body = vec![store("x"), load("x"), free("y"), Ir::Return];
    let wanted = vec![Ir::Duplicate, store("x"), free("y"), Ir::Return];
    assert_eq!(show(&load_store(&body)), show(&wanted));
}

#[test]
fn load_store_goes_on_at_the_store_after_a_duplicate() {
    let body = vec![store("x"), load("x"), load("x"), free("x"), Ir::Return];
    let wanted = vec![Ir::Duplicate, Ir::Return];
    assert_eq!(show(&load_store(&body)), show(&wanted));
}

#[test]
fn load_store_folds_inside_every_arm() {
    let arm = vec![number(1.0), store("t"), load("t"), free("t"), Ir::Return];
    let body = vec![Ir::LoadConstTrue, branch(arm.clone(), vec![store("u"), load("u"), Ir::Pop, Ir::Return])];
    let wanted = vec![
        Ir::LoadConstTrue,
        branch(vec![number(1.0), Ir::Return], vec![Ir::Duplicate, store("u"), Ir::Pop, Ir::Return]),
    ];
    assert_eq!(show(&load_store(&body)), show(&wanted));
}

#[test]
fn load_store_opt_changes_the_body_only() {
    let mut f = function(vec![store("x"), load("x"), free("x"), Ir::Return]);
    load_store_opt(&mut f);
    assert_eq!(show(&f.body), show(&vec![Ir::Return]));
}

#[test]
fn optimizer_runs_lift_then_free_then_fold() {
    let optimizer = Optimizer::new();
    assert_eq!(optimizer.ops, vec![Pass::LiftReturn, Pass::FreeLocal, Pass::LoadStore]);
    let mut f = function(vec![
        number(1.0),
        store("t"),
        load("t"),
        branch(vec![load("a")], vec![number(2.0)]),
        Ir::Return,
    ]);
    optimizer.optimize(&mut f);
    let wanted = vec![
        number(1.0),
        branch(vec![load("a"), free("a"), Ir::Return], vec![number(2.0), Ir::Return]),
    ];
    assert_eq!(show(&f.body), show(&wanted));
}

#[test]
fn optimizer_applies_registered_passes_in_order() {
    let mut optimizer = Optimizer { ops: vec![] };
    let mut f = function(vec![load("x"), Ir::Return]);
    optimizer.optimize(&mut f);
    assert_eq!(show(&f.body), show(&vec![load("x"), Ir::Return]));
    optimizer.register(Pass::FreeLocal);
    optimizer.register(Pass::FreeLocal);
    optimizer.optimize(&mut f);
    assert_eq!(show(&f.body), show(&vec![load("x"), free("x"), free("x"), Ir::Return]));
}

#[test]
fn optimizing_a_settled_body_twice_is_optimizing_it_once() {
    let optimizer = Optimizer::new();
    let mut f = function(vec![
        number(1.0),
        store("t"),
        load("t"),
        Ir::LoadConstTrue,
        branch(vec![number(1.0)], vec![number(2.0)]),
        Ir::Return,
    ]);
    optimizer.optimize(&mut f);
    let once = show(&f.body);
    let wanted = vec![
        number(1.0),
        Ir::LoadConstTrue,
        branch(vec![number(1.0), Ir::Return], vec![number(2.0), Ir::Return]),
    ];
    assert_eq!(once, show(&wanted));
    optimizer.optimize(&mut f);
    assert_eq!(show(&f.body), once);
}

#[test]
fn optimizing_twice_marks_a_remaining_load_twice() {
    let optimizer = Optimizer::new();
    let mut f = function(vec![load("x"), Ir::Return]);
    optimizer.optimize(&mut f);
    assert_eq!(show(&f.body), show(&vec![load("x"), free("x"), Ir::Return]));
    optimizer.optimize(&mut f);
    assert_eq!(show(&f.body), show(&vec![load("x"), free("x"), free("x"), Ir::Return]));
}
