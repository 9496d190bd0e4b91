use vstd::prelude::*;
use crate::ast::{
    AssignmentEx,
    BinaryOpEx,
    BlockEx,
    CallEx,
    ExprView,
    Expression,
    FunctionDeclarationEx,
    IfEx,
    Module,
    ModuleView,
    NumberLiteralEx,
    Location,
    Parameter,
    ParameterView,
    StringLiteralEx,
    VariableEx,
    clone_parameters,
    ids_of,
};
use crate::bytecode::{FunctionRef, FunctionRefView};
use crate::error::{ErrorKind, ErrorView, LangError, error_at};
use crate::ir::{Ir, IrFunction, IrFunctionView, IrModule, IrModuleView, IrView, branch};
use crate::lib_core::{float_compare_shape, float_op_shape};
use crate::shapes::{base, shape_boolean, shape_float, shape_function, BaseShapeKind, Shape};
use crate::support::{
    find_name,
    index_of,
    lemma_take_all,
    lemma_take_last,
    lemma_views_add,
    lemma_views_drop_last,
    lemma_views_push,
    views,
    NameMap,
    Table,
};

verus! {

/// What a name stands for where code is lowered: a function of the module or
/// of the core, or a local of a function in progress.
#[derive(Debug)]
pub enum ScopeLookup {
    Static(FunctionRef),
    Local,
}

/// The mathematical value of a [`ScopeLookup`].
pub enum LookupView {
    Static(FunctionRefView),
    Local,
}

impl View for ScopeLookup {
    type V = LookupView;

    open spec fn view(&self) -> LookupView {
        match self {
            ScopeLookup::Static(f) => LookupView::Static(f@),
            ScopeLookup::Local => LookupView::Local,
        }
    }
}

/// The names of the locals of one function.
#[derive(Debug)]
pub struct IrScope {
    pub scope: Vec<String>,
}

impl View for IrScope {
    type V = Seq<Seq<char>>;

    open spec fn view(&self) -> Seq<Seq<char>> {
        views(self.scope@)
    }
}

impl IrScope {
    pub fn new() -> (r: IrScope)
        ensures
            r@ == Seq::<Seq<char>>::empty(),
    {
        let r = IrScope { scope: Vec::new() };
        assert(views(r.scope@) =~= Seq::<Seq<char>>::empty());
        r
    }
}

/// One function in progress: its locals.
#[derive(Debug)]
pub struct IrFuncContext {
    pub scope: IrScope,
}

impl View for IrFuncContext {
    type V = Seq<Seq<char>>;

    open spec fn view(&self) -> Seq<Seq<char>> {
        self.scope@
    }
}

impl IrFuncContext {
    pub fn new() -> (r: IrFuncContext)
        ensures
            r@ == Seq::<Seq<char>>::empty(),
    {
        IrFuncContext { scope: IrScope::new() }
    }

    /// Whether `name` is a local of the function.
    pub fn lookup(&self, name: &String) -> (r: Option<ScopeLookup>)
        ensures
            match r {
                Some(found) => found@ == LookupView::Local && index_of(self@, name@) is Some,
                None => index_of(self@, name@) is None,
            },
    {
        match find_name(&self.scope.scope, name) {
            Some(_) => Some(ScopeLookup::Local),
            None => None,
        }
    }

    /// Makes `name` a local of the function.
    pub fn store(&mut self, name: String)
        ensures
            final(self)@ == old(self)@.push(name@),
    {
        let ghost before = self.scope.scope@;
        self.scope.scope.push(name);
        proof {
            lemma_views_push(before, name);
        }
    }
}

/// The operators of the core, each under its symbol.
#[derive(Debug)]
pub struct IrCoreContext {
    pub scope: NameMap<FunctionRef>,
}

/// The reference to the core's operator `name` of shape `shape`.
pub open spec fn core_ref(name: Seq<char>, shape: crate::shapes::ShapeView) -> FunctionRefView {
    FunctionRefView { package: "Core"@, module: "Core"@, name, shape }
}

/// The operators of the core: the four operations and the six comparisons.
pub open spec fn core_scope() -> Table<FunctionRefView> {
    let t0 = Table::<FunctionRefView>::empty();
    let t1 = t0.insert("+"@, core_ref("+"@, float_op_shape()));
    let t2 = t1.insert("-"@, core_ref("-"@, float_op_shape()));
    let t3 = t2.insert("*"@, core_ref("*"@, float_op_shape()));
    let t4 = t3.insert("/"@, core_ref("/"@, float_op_shape()));
    let t5 = t4.insert("=="@, core_ref("=="@, float_compare_shape()));
    let t6 = t5.insert("!="@, core_ref("!="@, float_compare_shape()));
    let t7 = t6.insert(">"@, core_ref(">"@, float_compare_shape()));
    let t8 = t7.insert("<"@, core_ref("<"@, float_compare_shape()));
    let t9 = t8.insert(">="@, core_ref(">="@, float_compare_shape()));
    t9.insert("<="@, core_ref("<="@, float_compare_shape()))
}

/// Puts the core's operator `name` into `scope`.
fn insert_core(scope: &mut NameMap<FunctionRef>, name: &str, arithmetic: bool)
    requires
        old(scope).wf(),
    ensures
        final(scope).wf(),
        final(scope)@ == old(scope)@.insert(
            name@,
            core_ref(
                name@,
                if arithmetic {
                    float_op_shape()
                } else {
                    float_compare_shape()
                },
            ),
        ),
{
    let mut args: Vec<Shape> = Vec::new();
    args.push(shape_float());
    args.push(shape_float());
    assert(views(args@) =~= seq![base(BaseShapeKind::Float), base(BaseShapeKind::Float)]);
    let result = if arithmetic {
        shape_float()
    } else {
        shape_boolean()
    };
    let shape = shape_function(args, result);
    scope.insert(
        String::from_str(name),
        FunctionRef {
            package: String::from_str("Core"),
            module: String::from_str("Core"),
            name: String::from_str(name),
            shape,
        },
    );
}

impl IrCoreContext {
    pub fn new() -> (r: IrCoreContext)
        ensures
            r.scope.wf(),
            r.scope@ == core_scope(),
    {
        let mut scope: NameMap<FunctionRef> = NameMap::new();
        insert_core(&mut scope, "+", true);
        insert_core(&mut scope, "-", true);
        insert_core(&mut scope, "*", true);
        insert_core(&mut scope, "/", true);
        insert_core(&mut scope, "==", false);
        insert_core(&mut scope, "!=", false);
        insert_core(&mut scope, ">", false);
        insert_core(&mut scope, "<", false);
        insert_core(&mut scope, ">=", false);
        insert_core(&mut scope, "<=", false);
        IrCoreContext { scope }
    }
}

/// What stays the same while a module is lowered: the core's operators, the
/// module's own functions, and the module's place.
pub struct LowerEnv {
    pub core: Table<FunctionRefView>,
    pub declared: Table<FunctionRefView>,
    pub package: Seq<char>,
    pub module: Seq<char>,
}

/// What changes while a module is lowered: the locals of the functions in
/// progress, innermost last, and the functions that are done.
pub struct LowerState {
    pub scopes: Seq<Seq<Seq<char>>>,
    pub functions: Table<IrFunctionView>,
}

/// Whether `name` is a local of one of the functions in progress.
pub open spec fn is_local(scopes: Seq<Seq<Seq<char>>>, name: Seq<char>) -> bool {
    exists|i: int| 0 <= i < scopes.len() && index_of(#[trigger] scopes[i], name) is Some
}

/// What `name` stands for: a local of a function in progress, else a function
/// of the module, else an operator of the core.
pub open spec fn lookup_spec(env: LowerEnv, scopes: Seq<Seq<Seq<char>>>, name: Seq<char>) -> Option<
    LookupView,
> {
    if is_local(scopes, name) {
        Some(LookupView::Local)
    } else {
        match env.declared.get(name) {
            Some(f) => Some(LookupView::Static(f)),
            None => match env.core.get(name) {
                Some(f) => Some(LookupView::Static(f)),
                None => None,
            },
        }
    }
}

/// The scopes with `name` as one more local of the innermost function.
pub open spec fn store_spec(scopes: Seq<Seq<Seq<char>>>, name: Seq<char>) -> Seq<Seq<Seq<char>>> {
    if scopes.len() == 0 {
        scopes
    } else {
        scopes.update(scopes.len() - 1, scopes.last().push(name))
    }
}

/// The state with `name` as one more local of the innermost function.
pub open spec fn stored(st: LowerState, name: Seq<char>) -> LowerState {
    LowerState { scopes: store_spec(st.scopes, name), ..st }
}

/// The one operation `op`, with the state `st`.
pub open spec fn just(op: IrView, st: LowerState) -> Result<(Seq<IrView>, LowerState), ErrorView> {
    Ok((seq![op], st))
}

/// The code that puts a value for each of `closures` on the stack, in order:
/// a local is loaded, a function is loaded as a constant.
pub open spec fn capture_spec(
    env: LowerEnv,
    scopes: Seq<Seq<Seq<char>>>,
    closures: Seq<ParameterView>,
    loc: crate::ast::LocationView,
) -> Result<Seq<IrView>, ErrorView>
    decreases closures.len(),
{
    if closures.len() == 0 {
        Ok(Seq::empty())
    } else {
        match capture_spec(env, scopes, closures.drop_last(), loc) {
            Err(e) => Err(e),
            Ok(code) => match lookup_spec(env, scopes, closures.last().id) {
                Some(LookupView::Local) => Ok(
                    code.push(IrView::LoadValue { local: closures.last().id }),
                ),
                Some(LookupView::Static(f)) => Ok(code.push(IrView::LoadConstFunction { func: f })),
                None => Err(error_at(ErrorKind::UnknownName, loc)),
            },
        }
    }
}

/// The names of the first locals of a function: what it captured, itself if
/// it is recursive, and its arguments.
pub open spec fn first_locals(e: ExprView) -> Seq<Seq<char>> {
    match e {
        ExprView::FunctionDeclaration { id, params, context, .. } => ids_of(context.closures) + (
        if context.is_recursive {
            seq![id]
        } else {
            Seq::empty()
        }) + ids_of(params),
        _ => Seq::empty(),
    }
}

/// The first locals of a function with their shapes.
pub open spec fn first_parameters(e: ExprView) -> Seq<ParameterView> {
    match e {
        ExprView::FunctionDeclaration { id, params, context, .. } => context.closures + (
        if context.is_recursive {
            seq![ParameterView { id, shape: e.shape() }]
        } else {
            Seq::empty()
        }) + params,
        _ => Seq::empty(),
    }
}

/// The reference to the function that `e` declares, as a function of the
/// module that is lowered.
pub open spec fn declared_ref(env: LowerEnv, e: ExprView) -> FunctionRefView {
    match e {
        ExprView::FunctionDeclaration { id, .. } => FunctionRefView {
            package: env.package,
            module: env.module,
            name: id,
            shape: e.shape(),
        },
        _ => arbitrary(),
    }
}

/// The function that `e` declares, lowered and put among the functions that
/// are done, and the reference to it. Its body ends with a return.
pub open spec fn lower_function_spec(env: LowerEnv, st: LowerState, e: ExprView) -> Result<
    (FunctionRefView, LowerState),
    ErrorView,
>
    decreases e, 0nat,
{
    match e {
        ExprView::FunctionDeclaration { id, body, .. } => {
            let inner = LowerState { scopes: st.scopes.push(first_locals(e)), ..st };
            match lower_spec(env, inner, *body) {
                Err(error) => Err(error),
                Ok((code, after)) => {
                    let func_ref = declared_ref(env, e);
                    let func = IrFunctionView {
                        func_ref,
                        args: first_parameters(e),
                        body: code.push(IrView::Return),
                        shape: e.shape(),
                    };
                    Ok(
                        (
                            func_ref,
                            LowerState {
                                scopes: after.scopes.drop_last(),
                                functions: after.functions.insert(id, func),
                            },
                        ),
                    )
                },
            }
        },
        _ => Err(error_at(ErrorKind::NotADeclaration, e.loc())),
    }
}

/// The code for the expressions `items`, one after the other.
pub open spec fn lower_items_spec(env: LowerEnv, st: LowerState, items: Seq<ExprView>) -> Result<
    (Seq<IrView>, LowerState),
    ErrorView,
>
    decreases items, 0nat,
{
    if items.len() == 0 {
        Ok((Seq::empty(), st))
    } else {
        match lower_items_spec(env, st, items.drop_last()) {
            Err(error) => Err(error),
            Ok((code, st1)) => match lower_spec(env, st1, items.last()) {
                Err(error) => Err(error),
                Ok((more, st2)) => Ok((code + more, st2)),
            },
        }
    }
}

/// The function that a call of `func` names, where `func` is a variable that
/// stands for a function of the module or of the core.
pub open spec fn static_target(env: LowerEnv, scopes: Seq<Seq<Seq<char>>>, func: ExprView) -> Option<
    FunctionRefView,
> {
    match func {
        ExprView::Variable { id, .. } => match lookup_spec(env, scopes, id) {
            Some(LookupView::Static(f)) => Some(f),
            _ => None,
        },
        _ => None,
    }
}

/// The code for a call: the arguments in order and a static call where the
/// callee is a known function; else the callee, the arguments and a dynamic
/// call.
pub open spec fn lower_call_spec(env: LowerEnv, st: LowerState, e: ExprView) -> Result<
    (Seq<IrView>, LowerState),
    ErrorView,
>
    decreases e, 0nat,
{
    match e {
        ExprView::Call { loc, func, args, .. } => match static_target(env, st.scopes, *func) {
            Some(target) => match lower_items_spec(env, st, args) {
                Err(error) => Err(error),
                Ok((code, after)) => Ok((code.push(IrView::CallStatic { func: target }), after)),
            },
            None => match lower_spec(env, st, *func) {
                Err(error) => Err(error),
                Ok((callee, st1)) => match lower_items_spec(env, st1, args) {
                    Err(error) => Err(error),
                    Ok((code, st2)) => if args.len() > u16::MAX {
                        Err(error_at(ErrorKind::TooManyArguments, loc))
                    } else {
                        Ok(
                            (
                                (callee + code).push(
                                    IrView::CallDynamic { param_count: args.len() as u16 },
                                ),
                                st2,
                            ),
                        )
                    },
                },
            },
        },
        _ => Err(error_at(ErrorKind::NotAFunction, e.loc())),
    }
}

/// The code for a function declared inside another: what it captures is put
/// on the stack, the function itself is lowered as a function of the module,
/// and a handle to it is built: a constant, or a closure over what was
/// captured; wrapped for recursion where the function calls itself; stored
/// under its name unless it is a lambda.
pub open spec fn lower_declaration_spec(env: LowerEnv, st: LowerState, e: ExprView) -> Result<
    (Seq<IrView>, LowerState),
    ErrorView,
>
    decreases e, 1nat,
{
    match e {
        ExprView::FunctionDeclaration { loc, id, context, .. } => match capture_spec(
            env,
            st.scopes,
            context.closures,
            loc,
        ) {
            Err(error) => Err(error),
            Ok(captures) => match lower_function_spec(env, st, e) {
                Err(error) => Err(error),
                Ok((func_ref, after)) => if context.closures.len() > u16::MAX {
                    Err(error_at(ErrorKind::TooManyArguments, loc))
                } else {
                    let build = if context.closures.len() == 0 {
                        seq![IrView::LoadConstFunction { func: func_ref }]
                    } else {
                        captures.push(
                            IrView::BuildClosure {
                                param_count: context.closures.len() as u16,
                                func: func_ref,
                            },
                        )
                    };
                    let wrapped = if context.is_recursive {
                        build.push(IrView::BuildRecursiveFunction)
                    } else {
                        build
                    };
                    if context.is_lambda {
                        Ok((wrapped, after))
                    } else {
                        Ok((wrapped.push(IrView::StoreValue { local: id }), stored(after, id)))
                    }
                },
            },
        },
        _ => Err(error_at(ErrorKind::NotADeclaration, e.loc())),
    }
}

/// The code for an expression, and the state after it. The code leaves the
/// expression's value on the stack.
pub open spec fn lower_spec(env: LowerEnv, st: LowerState, e: ExprView) -> Result<
    (Seq<IrView>, LowerState),
    ErrorView,
>
    decreases e, 2nat,
{
    match e {
        ExprView::NoOp { .. } => Ok((Seq::empty(), st)),
        ExprView::FunctionDeclaration { .. } => lower_declaration_spec(env, st, e),
        ExprView::Assignment { id, body, .. } => match lower_spec(env, st, *body) {
            Err(error) => Err(error),
            Ok((code, after)) => Ok(
                (code.push(IrView::StoreValue { local: id }), stored(after, id)),
            ),
        },
        ExprView::Variable { id, loc, .. } => match lookup_spec(env, st.scopes, id) {
            Some(LookupView::Local) => just(IrView::LoadValue { local: id }, st),
            Some(LookupView::Static(f)) => just(IrView::LoadConstFunction { func: f }, st),
            None => Err(error_at(ErrorKind::UnknownName, loc)),
        },
        ExprView::BinaryOp { loc, op, left, right, .. } => match lower_spec(env, st, *left) {
            Err(error) => Err(error),
            Ok((first, st1)) => match lower_spec(env, st1, *right) {
                Err(error) => Err(error),
                Ok((second, st2)) => match env.core.get(op) {
                    Some(f) => Ok(((first + second).push(IrView::CallStatic { func: f }), st2)),
                    None => Err(error_at(ErrorKind::UnknownName, loc)),
                },
            },
        },
        ExprView::Call { .. } => lower_call_spec(env, st, e),
        ExprView::If { condition, then_block, else_block, .. } => match lower_spec(
            env,
            st,
            *condition,
        ) {
            Err(error) => Err(error),
            Ok((test, st1)) => match lower_spec(env, st1, *then_block) {
                Err(error) => Err(error),
                Ok((then_code, st2)) => match lower_spec(env, st2, *else_block) {
                    Err(error) => Err(error),
                    Ok((else_code, st3)) => Ok(
                        (
                            test.push(
                                IrView::Branch { then_block: then_code, else_block: else_code },
                            ),
                            st3,
                        ),
                    ),
                },
            },
        },
        ExprView::Block { items, .. } => lower_items_spec(env, st, items),
        ExprView::StringLiteral { value, .. } => just(IrView::LoadConstString { value }, st),
        ExprView::NumberLiteral { value, .. } => just(IrView::LoadConstFloat { bits: value }, st),
        ExprView::BooleanLiteral { value, .. } => just(
            if value {
                IrView::LoadConstTrue
            } else {
                IrView::LoadConstFalse
            },
            st,
        ),
    }
}

/// Where the first `n` expressions cannot be lowered, neither can all of
/// them, for the same reason.
pub proof fn lemma_lower_prefix_error(env: LowerEnv, st: LowerState, items: Seq<ExprView>, n: int)
    requires
        0 <= n <= items.len(),
        lower_items_spec(env, st, items.take(n)) is Err,
    ensures
        lower_items_spec(env, st, items) == lower_items_spec(env, st, items.take(n)),
    decreases items.len(),
{
    if n < items.len() {
        assert(items.drop_last().take(n) =~= items.take(n));
        lemma_lower_prefix_error(env, st, items.drop_last(), n);
    } else {
        lemma_take_all(items);
    }
}

/// What a module is lowered with: the scopes, and the functions that are
/// done.
#[derive(Debug)]
pub struct IrModuleContext {
    pub core: IrCoreContext,
    pub package: String,
    pub module: String,
    pub declared_functions: NameMap<FunctionRef>,
    pub functions: NameMap<IrFunction>,
    pub function_context: Vec<IrFuncContext>,
}

impl IrModuleContext {
    /// The tables are well formed.
    pub open spec fn wf(&self) -> bool {
        &&& self.core.scope.wf()
        &&& self.declared_functions.wf()
        &&& self.functions.wf()
    }

    /// What stays the same while the module is lowered.
    pub open spec fn env(&self) -> LowerEnv {
        LowerEnv {
            core: self.core.scope@,
            declared: self.declared_functions@,
            package: self.package@,
            module: self.module@,
        }
    }

    /// What changes while the module is lowered.
    pub open spec fn state(&self) -> LowerState {
        LowerState { scopes: views(self.function_context@), functions: self.functions@ }
    }

    pub fn new(package: String, module: String) -> (r: IrModuleContext)
        ensures
            r.wf(),
            r.env() == (LowerEnv {
                core: core_scope(),
                declared: Table::empty(),
                package: package@,
                module: module@,
            }),
            r.state() == (LowerState { scopes: Seq::empty(), functions: Table::empty() }),
            r.function_context@.len() == 0,
    {
        let r = IrModuleContext {
            core: IrCoreContext::new(),
            package,
            module,
            declared_functions: NameMap::new(),
            functions: NameMap::new(),
            function_context: Vec::new(),
        };
        assert(views(r.function_context@) =~= Seq::<Seq<Seq<char>>>::empty());
        r
    }

    /// Whether `name` is a local of one of the functions in progress.
    fn lookup_local(&self, name: &String) -> (r: bool)
        ensures
            r == is_local(self.state().scopes, name@),
    {
        let ghost scopes = views(self.function_context@);
        let mut i: usize = self.function_context.len();
        while i > 0
            invariant
                i <= self.function_context@.len(),
                scopes == views(self.function_context@),
                forall|j: int| i <= j < scopes.len() ==> index_of(#[trigger] scopes[j], name@) is None,
            decreases i,
        {
            i -= 1;
            if self.function_context[i].lookup(name).is_some() {
                assert(index_of(scopes[i as int], name@) is Some);
                return true;
            }
        }
        false
    }

    /// What `name` stands for; an error at `loc` where it stands for nothing.
    pub fn lookup(&self, name: &String, loc: &Location) -> (r: Result<ScopeLookup, LangError>)
        requires
            self.wf(),
        ensures
            match r {
                Ok(found) => lookup_spec(self.env(), self.state().scopes, name@) == Some(found@),
                Err(e) => lookup_spec(self.env(), self.state().scopes, name@) is None && e@
                    == error_at(ErrorKind::UnknownName, loc@),
            },
    {
        if self.lookup_local(name) {
            return Ok(ScopeLookup::Local);
        }
        match self.declared_functions.get(name) {
            Some(f) => Ok(ScopeLookup::Static(f.clone())),
            None => match self.core.scope.get(name) {
                Some(f) => Ok(ScopeLookup::Static(f.clone())),
                None => Err(LangError::at(ErrorKind::UnknownName, loc)),
            },
        }
    }

    /// Makes `name` a local of the innermost function in progress.
    pub fn store(&mut self, name: String)
        requires
            old(self).wf(),
        ensures
            final(self).wf(),
            final(self).env() == old(self).env(),
            final(self).state() == stored(old(self).state(), name@),
            final(self).function_context@.len() == old(self).function_context@.len(),
    {
        let ghost before = self.function_context@;
        match self.function_context.pop() {
            Some(func) => {
                let mut func = func;
                func.store(name);
                let ghost rest = self.function_context@;
                self.function_context.push(func);
                proof {
                    lemma_views_drop_last(before);
                    lemma_views_push(rest, func);
                    assert(views(self.function_context@) =~= store_spec(views(before), name@));
                }
            },
            None => {},
        }
    }

    /// Starts a function whose first locals are `names`.
    pub fn push_function(&mut self, names: Vec<String>)
        requires
            old(self).wf(),
        ensures
            final(self).wf(),
            final(self).env() == old(self).env(),
            final(self).state() == (LowerState {
                scopes: old(self).state().scopes.push(views(names@)),
                ..old(self).state()
            }),
            final(self).function_context@.len() == old(self).function_context@.len() + 1,
    {
        let ghost before = self.function_context@;
        let func = IrFuncContext { scope: IrScope { scope: names } };
        self.function_context.push(func);
        proof {
            lemma_views_push(before, func);
        }
    }

    /// Ends the innermost function in progress: `ex` with the body `code`
    /// goes among the functions that are done.
    pub fn pop_function(&mut self, ex: &FunctionDeclarationEx, code: Vec<Ir>) -> (r: FunctionRef)
        requires
            old(self).wf(),
            old(self).function_context@.len() > 0,
        ensures
            final(self).wf(),
            final(self).env() == old(self).env(),
            final(self).function_context@.len() == old(self).function_context@.len() - 1,
            r@ == declared_ref(old(self).env(), ex@),
            final(self).state() == (LowerState {
                scopes: old(self).state().scopes.drop_last(),
                functions: old(self).state().functions.insert(
                    ex.id@,
                    IrFunctionView {
                        func_ref: declared_ref(old(self).env(), ex@),
                        args: first_parameters(ex@),
                        body: views(code@),
                        shape: ex@.shape(),
                    },
                ),
            }),
    {
        let ghost before = self.function_context@;
        let _ = self.function_context.pop();
        proof {
            lemma_views_drop_last(before);
        }
        let func_ref = FunctionRef {
            package: self.package.clone(),
            module: self.module.clone(),
            name: ex.id.clone(),
            shape: ex.shape(),
        };
        let mut args = clone_parameters(&ex.context.closures);
        if ex.context.is_recursive {
            let ghost so_far = args@;
            let me = Parameter { id: ex.id.clone(), shape: ex.shape() };
            args.push(me);
            proof {
                lemma_views_push(so_far, me);
            }
        }
        let ghost so_far = args@;
        let mut own = clone_parameters(&ex.args);
        let ghost own_args = own@;
        args.append(&mut own);
        proof {
            lemma_views_add(so_far, own_args);
            assert(views(args@) =~= first_parameters(ex@));
        }
        let func = IrFunction { func_ref: func_ref.clone(), args, body: code, shape: ex.shape() };
        self.functions.insert(ex.id.clone(), func);
        func_ref
    }
}

/// What an expression is lowered to: the code as the model gives it, with
/// the state that the model gives; or the error that the model gives.
pub open spec fn lowered(
    before: IrModuleContext,
    after: IrModuleContext,
    r: Result<Vec<Ir>, LangError>,
    model: Result<(Seq<IrView>, LowerState), ErrorView>,
) -> bool {
    &&& after.wf()
    &&& after.env() == before.env()
    &&& match r {
        Ok(code) => model == Ok::<_, ErrorView>((views(code@), after.state()))
            && after.function_context@.len() == before.function_context@.len(),
        Err(e) => model == Err::<(Seq<IrView>, LowerState), _>(e@),
    }
}

/// The names of `params`, in order, behind `names`.
fn push_ids(names: &mut Vec<String>, params: &Vec<Parameter>)
    ensures
        views(final(names)@) == views(old(names)@) + ids_of(views(params@)),
{
    let ghost start = views(names@);
    let mut i: usize = 0;
    proof {
        lemma_take_all(ids_of(views(params@)));
        lemma_take_all(start);
    }
    while i < params.len()
        invariant
            i <= params@.len(),
            views(names@) == start + ids_of(views(params@)).take(i as int),
        decreases params@.len() - i,
    {
        let ghost before = names@;
        let name = params[i].id.clone();
        names.push(name);
        proof {
            lemma_views_push(before, name);
            assert(ids_of(views(params@)).take(i + 1) =~= ids_of(views(params@)).take(
                i as int,
            ).push(name@));
            assert(views(names@) =~= start + ids_of(views(params@)).take(i + 1));
        }
        i += 1;
    }
    proof {
        lemma_take_all(ids_of(views(params@)));
    }
}

/// One operation as code.
fn code_of(op: Ir) -> (r: Vec<Ir>)
    ensures
        views(r@) == seq![op@],
{
    let mut v: Vec<Ir> = Vec::new();
    v.push(op);
    assert(views(v@) =~= seq![op@]);
    v
}

/// `op` behind `code`.
fn code_with(code: Vec<Ir>, op: Ir) -> (r: Vec<Ir>)
    ensures
        views(r@) == views(code@).push(op@),
{
    let mut v = code;
    let ghost before = v@;
    v.push(op);
    proof {
        lemma_views_push(before, op);
    }
    v
}

/// `more` behind `code`.
fn code_join(code: Vec<Ir>, more: Vec<Ir>) -> (r: Vec<Ir>)
    ensures
        views(r@) == views(code@) + views(more@),
{
    let mut v = code;
    let mut more = more;
    let ghost a = v@;
    let ghost b = more@;
    v.append(&mut more);
    proof {
        lemma_views_add(a, b);
    }
    v
}

/// Lowers the function that `ex` declares, puts it among the functions that
/// are done, and hands back the reference to it.
pub fn compile_ir_function(ex: &FunctionDeclarationEx, context: &mut IrModuleContext) -> (r: Result<
    FunctionRef,
    LangError,
>)
    requires
        old(context).wf(),
    ensures
        final(context).wf(),
        final(context).env() == old(context).env(),
        match r {
            Ok(func_ref) => lower_function_spec(old(context).env(), old(context).state(), ex@)
                == Ok::<_, ErrorView>((func_ref@, final(context).state()))
                && final(context).function_context@.len() == old(context).function_context@.len(),
            Err(e) => lower_function_spec(old(context).env(), old(context).state(), ex@) == Err::<
                (FunctionRefView, LowerState),
                _,
            >(e@),
        },
    decreases ex, 0nat,
{
    let mut names: Vec<String> = Vec::new();
    assert(views(names@) =~= Seq::<Seq<char>>::empty());
    push_ids(&mut names, &ex.context.closures);
    if ex.context.is_recursive {
        let ghost before = names@;
        let me = ex.id.clone();
        names.push(me);
        proof {
            lemma_views_push(before, me);
        }
    }
    push_ids(&mut names, &ex.args);
    proof {
        assert(views(names@) =~= first_locals(ex@));
    }
    context.push_function(names);
    let code = compile_ir_expression(&ex.body, context)?;
    let code = code_with(code, Ir::Return);
    Ok(context.pop_function(ex, code))
}

/// Lowers the expressions `items`, one after the other.
pub fn compile_ir_items(items: &Vec<Expression>, context: &mut IrModuleContext) -> (r: Result<
    Vec<Ir>,
    LangError,
>)
    requires
        old(context).wf(),
    ensures
        lowered(
            *old(context),
            *final(context),
            r,
            lower_items_spec(old(context).env(), old(context).state(), views(items@)),
        ),
    decreases items, 0nat,
{
    let ghost whole = views(items@);
    let ghost env = context.env();
    let ghost start = context.state();
    let mut out: Vec<Ir> = Vec::new();
    let mut i: usize = 0;
    proof {
        assert(views(out@) =~= Seq::<IrView>::empty());
        lemma_take_all(whole);
    }
    while i < items.len()
        invariant
            i <= items@.len(),
            whole == views(items@),
            env == old(context).env(),
            start == old(context).state(),
            context.wf(),
            context.env() == env,
            context.function_context@.len() == old(context).function_context@.len(),
            lower_items_spec(env, start, whole.take(i as int)) == Ok::<_, ErrorView>(
                (views(out@), context.state()),
            ),
        decreases items@.len() - i,
    {
        proof {
            broadcast use vstd::std_specs::vec::axiom_vec_index_decreases;

            lemma_take_last(whole, i + 1);
        }
        match compile_ir_expression(&items[i], context) {
            Ok(more) => {
                out = code_join(out, more);
            },
            Err(e) => {
                proof {
                    lemma_lower_prefix_error(env, start, whole, i + 1);
                }
                return Err(e);
            },
        }
        i += 1;
    }
    proof {
        lemma_take_all(whole);
    }
    Ok(out)
}

/// Lowers an expression: the code leaves its value on the stack.
pub fn compile_ir_expression(ex: &Expression, context: &mut IrModuleContext) -> (r: Result<
    Vec<Ir>,
    LangError,
>)
    requires
        old(context).wf(),
    ensures
        lowered(
            *old(context),
            *final(context),
            r,
            lower_spec(old(context).env(), old(context).state(), ex@),
        ),
    decreases ex, 2nat,
{
    proof {
        ex.lemma_model();
    }
    match ex {
        Expression::NoOp(_) => {
            let v: Vec<Ir> = Vec::new();
            assert(views(v@) =~= Seq::<IrView>::empty());
            Ok(v)
        },
        Expression::FunctionDeclaration(ex) => ex.compile_ir(context),
        Expression::Assignment(ex) => ex.compile_ir(context),
        Expression::Variable(ex) => ex.compile_ir(context),
        Expression::BinaryOp(ex) => ex.compile_ir(context),
        Expression::Call(ex) => ex.compile_ir(context),
        Expression::If(ex) => ex.compile_ir(context),
        Expression::Block(ex) => ex.compile_ir(context),
        Expression::StringLiteral(ex) => ex.compile_ir(context),
        Expression::NumberLiteral(ex) => ex.compile_ir(context),
        Expression::BooleanLiteral(_, value) => {
            if *value {
                Ok(code_of(Ir::LoadConstTrue))
            } else {
                Ok(code_of(Ir::LoadConstFalse))
            }
        },
    }
}

impl StringLiteralEx {
    pub fn compile_ir(&self, context: &mut IrModuleContext) -> (r: Result<Vec<Ir>, LangError>)
        requires
            old(context).wf(),
        ensures
            lowered(
                *old(context),
                *final(context),
                r,
                lower_spec(old(context).env(), old(context).state(), self@),
            ),
    {
        Ok(code_of(Ir::LoadConstString { value: self.value.clone() }))
    }
}

impl NumberLiteralEx {
    pub fn compile_ir(&self, context: &mut IrModuleContext) -> (r: Result<Vec<Ir>, LangError>)
        requires
            old(context).wf(),
        ensures
            lowered(
                *old(context),
                *final(context),
                r,
                lower_spec(old(context).env(), old(context).state(), self@),
            ),
    {
        Ok(code_of(Ir::LoadConstFloat { value: self.value }))
    }
}

impl VariableEx {
    pub fn compile_ir(&self, context: &mut IrModuleContext) -> (r: Result<Vec<Ir>, LangError>)
        requires
            old(context).wf(),
        ensures
            lowered(
                *old(context),
                *final(context),
                r,
                lower_spec(old(context).env(), old(context).state(), self@),
            ),
    {
        match context.lookup(&self.id, &self.loc)? {
            ScopeLookup::Local => Ok(code_of(Ir::LoadValue { local: self.id.clone() })),
            ScopeLookup::Static(f) => Ok(code_of(Ir::LoadConstFunction { value: f })),
        }
    }
}

impl BlockEx {
    pub fn compile_ir(&self, context: &mut IrModuleContext) -> (r: Result<Vec<Ir>, LangError>)
        requires
            old(context).wf(),
        ensures
            lowered(
                *old(context),
                *final(context),
                r,
                lower_spec(old(context).env(), old(context).state(), self@),
            ),
        decreases self, 1nat,
    {
        compile_ir_items(&self.body, context)
    }
}

impl AssignmentEx {
    pub fn compile_ir(&self, context: &mut IrModuleContext) -> (r: Result<Vec<Ir>, LangError>)
        requires
            old(context).wf(),
        ensures
            lowered(
                *old(context),
                *final(context),
                r,
                lower_spec(old(context).env(), old(context).state(), self@),
            ),
        decreases self, 1nat,
    {
        let code = compile_ir_expression(&self.body, context)?;
        context.store(self.id.clone());
        Ok(code_with(code, Ir::StoreValue { local: self.id.clone() }))
    }
}

impl BinaryOpEx {
    pub fn compile_ir(&self, context: &mut IrModuleContext) -> (r: Result<Vec<Ir>, LangError>)
        requires
            old(context).wf(),
        ensures
            lowered(
                *old(context),
                *final(context),
                r,
                lower_spec(old(context).env(), old(context).state(), self@),
            ),
        decreases self, 1nat,
    {
        let first = compile_ir_expression(&self.left, context)?;
        let second = compile_ir_expression(&self.right, context)?;
        match context.core.scope.get(&self.op) {
            Some(f) => Ok(code_with(code_join(first, second), Ir::CallStatic { func: f.clone() })),
            None => Err(LangError::at(ErrorKind::UnknownName, &self.loc)),
        }
    }
}

impl IfEx {
    pub fn compile_ir(&self, context: &mut IrModuleContext) -> (r: Result<Vec<Ir>, LangError>)
        requires
            old(context).wf(),
        ensures
            lowered(
                *old(context),
                *final(context),
                r,
                lower_spec(old(context).env(), old(context).state(), self@),
            ),
        decreases self, 1nat,
    {
        let test = compile_ir_expression(&self.condition, context)?;
        let then_block = compile_ir_expression(&self.then_block, context)?;
        let else_block = compile_ir_expression(&self.else_block, context)?;
        Ok(code_with(test, branch(then_block, else_block)))
    }
}

impl CallEx {
    /// The function that the call names, where its callee is a variable that
    /// stands for a function of the module or of the core.
    fn target(&self, context: &IrModuleContext) -> (r: Option<FunctionRef>)
        requires
            context.wf(),
        ensures
            match r {
                Some(f) => static_target(context.env(), context.state().scopes, self.func@) == Some(
                    f@,
                ),
                None => static_target(context.env(), context.state().scopes, self.func@) is None,
            },
    {
        proof {
            self.func.lemma_model();
        }
        match &self.func {
            Expression::Variable(var) => match context.lookup(&var.id, &self.loc) {
                Ok(ScopeLookup::Static(f)) => Some(f),
                _ => None,
            },
            _ => None,
        }
    }

    pub fn compile_ir(&self, context: &mut IrModuleContext) -> (r: Result<Vec<Ir>, LangError>)
        requires
            old(context).wf(),
        ensures
            lowered(
                *old(context),
                *final(context),
                r,
                lower_call_spec(old(context).env(), old(context).state(), self@),
            ),
        decreases self, 1nat,
    {
        match self.target(context) {
            Some(func) => {
                let code = compile_ir_items(&self.args, context)?;
                Ok(code_with(code, Ir::CallStatic { func }))
            },
            None => {
                let callee = compile_ir_expression(&self.func, context)?;
                let code = compile_ir_items(&self.args, context)?;
                if self.args.len() > u16::MAX as usize {
                    return Err(LangError::at(ErrorKind::TooManyArguments, &self.loc));
                }
                Ok(
                    code_with(
                        code_join(callee, code),
                        Ir::CallDynamic { param_count: self.args.len() as u16 },
                    ),
                )
            },
        }
    }
}

impl FunctionDeclarationEx {
    /// The code that puts what the function captures on the stack.
    fn captures(&self, context: &IrModuleContext) -> (r: Result<Vec<Ir>, LangError>)
        requires
            context.wf(),
        ensures
            match r {
                Ok(code) => capture_spec(
                    context.env(),
                    context.state().scopes,
                    self@->context.closures,
                    self.loc@,
                ) == Ok::<_, ErrorView>(views(code@)),
                Err(e) => capture_spec(
                    context.env(),
                    context.state().scopes,
                    self@->context.closures,
                    self.loc@,
                ) == Err::<Seq<IrView>, _>(e@),
            },
    {
        let ghost closures = views(self.context.closures@);
        let ghost env = context.env();
        let ghost scopes = context.state().scopes;
        let mut out: Vec<Ir> = Vec::new();
        let mut i: usize = 0;
        proof {
            assert(views(out@) =~= Seq::<IrView>::empty());
            lemma_take_all(closures);
        }
        while i < self.context.closures.len()
            invariant
                i <= self.context.closures@.len(),
                closures == views(self.context.closures@),
                env == context.env(),
                scopes == context.state().scopes,
                context.wf(),
                capture_spec(env, scopes, closures.take(i as int), self.loc@) == Ok::<_, ErrorView>(
                    views(out@),
                ),
            decreases self.context.closures@.len() - i,
        {
            proof {
                lemma_take_last(closures, i + 1);
            }
            let local = &self.context.closures[i];
            match context.lookup(&local.id, &self.loc) {
                Ok(ScopeLookup::Local) => {
                    out = code_with(out, Ir::LoadValue { local: local.id.clone() });
                },
                Ok(ScopeLookup::Static(value)) => {
                    out = code_with(out, Ir::LoadConstFunction { value });
                },
                Err(e) => {
                    proof {
                        lemma_capture_prefix_error(env, scopes, closures, self.loc@, i + 1);
                    }
                    return Err(e);
                },
            }
            i += 1;
        }
        proof {
            lemma_take_all(closures);
        }
        Ok(out)
    }

    pub fn compile_ir(&self, context: &mut IrModuleContext) -> (r: Result<Vec<Ir>, LangError>)
        requires
            old(context).wf(),
        ensures
            lowered(
                *old(context),
                *final(context),
                r,
                lower_declaration_spec(old(context).env(), old(context).state(), self@),
            ),
        decreases self, 1nat,
    {
        let captures = self.captures(context)?;
        let func = compile_ir_function(self, context)?;
        if self.context.closures.len() > u16::MAX as usize {
            return Err(LangError::at(ErrorKind::TooManyArguments, &self.loc));
        }
        let mut code = if self.context.closures.len() == 0 {
            code_of(Ir::LoadConstFunction { value: func })
        } else {
            code_with(
                captures,
                Ir::BuildClosure { param_count: self.context.closures.len() as u16, func },
            )
        };
        if self.context.is_recursive {
            code = code_with(code, Ir::BuildRecursiveFunction);
        }
        if !self.context.is_lambda {
            context.store(self.id.clone());
            code = code_with(code, Ir::StoreValue { local: self.id.clone() });
        }
        Ok(code)
    }
}

/// Where the first `n` captured names cannot be loaded, neither can all of
/// them, for the same reason.
pub proof fn lemma_capture_prefix_error(
    env: LowerEnv,
    scopes: Seq<Seq<Seq<char>>>,
    closures: Seq<ParameterView>,
    loc: crate::ast::LocationView,
    n: int,
)
    requires
        0 <= n <= closures.len(),
        capture_spec(env, scopes, closures.take(n), loc) is Err,
    ensures
        capture_spec(env, scopes, closures, loc) == capture_spec(env, scopes, closures.take(n), loc),
    decreases closures.len(),
{
    if n < closures.len() {
        assert(closures.drop_last().take(n) =~= closures.take(n));
        lemma_capture_prefix_error(env, scopes, closures.drop_last(), loc, n);
    } else {
        lemma_take_all(closures);
    }
}

/// The name of the function that `e` declares.
pub open spec fn id_of(e: ExprView) -> Seq<char> {
    match e {
        ExprView::FunctionDeclaration { id, .. } => id,
        _ => Seq::empty(),
    }
}

/// The references to the first `n` functions of the module, each under its
/// name.
pub open spec fn declared_table(m: ModuleView, n: int) -> Table<FunctionRefView>
    decreases n,
{
    if n <= 0 {
        Table::empty()
    } else {
        declared_table(m, n - 1).insert(
            id_of(m.functions[n - 1]),
            FunctionRefView {
                package: m.package,
                module: m.name,
                name: id_of(m.functions[n - 1]),
                shape: m.functions[n - 1].shape(),
            },
        )
    }
}

/// What stays the same while the module `m` is lowered.
pub open spec fn module_env(m: ModuleView) -> LowerEnv {
    LowerEnv {
        core: core_scope(),
        declared: declared_table(m, m.functions.len() as int),
        package: m.package,
        module: m.name,
    }
}

/// The state after the first `n` functions of the module were lowered.
pub open spec fn lower_functions_spec(env: LowerEnv, functions: Seq<ExprView>, n: int) -> Result<
    LowerState,
    ErrorView,
>
    decreases n,
{
    if n <= 0 {
        Ok(LowerState { scopes: Seq::empty(), functions: Table::empty() })
    } else {
        match lower_functions_spec(env, functions, n - 1) {
            Err(error) => Err(error),
            Ok(st) => match lower_function_spec(env, st, functions[n - 1]) {
                Err(error) => Err(error),
                Ok((_, after)) => Ok(after),
            },
        }
    }
}

/// The module in the intermediate representation: every function of the
/// module, and every function declared inside one, lowered under its name.
pub open spec fn lower_module_spec(m: ModuleView) -> Result<IrModuleView, ErrorView> {
    match lower_functions_spec(module_env(m), m.functions, m.functions.len() as int) {
        Err(error) => Err(error),
        Ok(st) => Ok(IrModuleView { package: m.package, name: m.name, functions: st.functions }),
    }
}

/// Where the first `n` functions cannot be lowered, neither can the first
/// `k`, for `k` from `n` on, for the same reason.
pub proof fn lemma_lower_functions_error(env: LowerEnv, functions: Seq<ExprView>, n: int, k: int)
    requires
        n <= k,
        lower_functions_spec(env, functions, n) is Err,
    ensures
        lower_functions_spec(env, functions, k) == lower_functions_spec(env, functions, n),
    decreases k - n,
{
    if n < k {
        lemma_lower_functions_error(env, functions, n, k - 1);
    }
}

/// Lowers a checked module to the intermediate representation. The names of
/// the module's functions are known to all of them, whatever their order.
pub fn compile_ir_module(module: &Module) -> (r: Result<IrModule, LangError>)
    ensures
        match r {
            Ok(ir) => lower_module_spec(module@) == Ok::<_, ErrorView>(ir@) && ir.functions.wf(),
            Err(e) => lower_module_spec(module@) == Err::<IrModuleView, _>(e@),
        },
{
    let ghost m = module@;
    let mut context = IrModuleContext::new(module.package.clone(), module.name.clone());
    let count = module.functions.len();
    let mut i: usize = 0;
    while i < count
        invariant
            i <= count,
            count == module.functions@.len(),
            m == module@,
            context.wf(),
            context.core.scope@ == core_scope(),
            context.package@ == m.package,
            context.module@ == m.name,
            context.declared_functions@ == declared_table(m, i as int),
            context.state() == (LowerState { scopes: Seq::empty(), functions: Table::empty() }),
            context.function_context@.len() == 0,
        decreases count - i,
    {
        let func = &module.functions[i];
        let func_ref = FunctionRef {
            package: module.package.clone(),
            module: module.name.clone(),
            name: func.ex.id.clone(),
            shape: func.ex.shape(),
        };
        proof {
            assert(m.functions[i as int] == func.ex@);
        }
        context.declared_functions.insert(func.ex.id.clone(), func_ref);
        i += 1;
    }
    let ghost env = module_env(m);
    let mut i: usize = 0;
    while i < count
        invariant
            i <= count,
            count == module.functions@.len(),
            m == module@,
            env == module_env(m),
            context.wf(),
            context.env() == env,
            context.function_context@.len() == 0,
            lower_functions_spec(env, m.functions, i as int) == Ok::<_, ErrorView>(context.state()),
        decreases count - i,
    {
        proof {
            assert(m.functions[i as int] == module.functions@[i as int].ex@);
        }
        match compile_ir_function(&module.functions[i].ex, &mut context) {
            Ok(_) => {},
            Err(e) => {
                proof {
                    lemma_lower_functions_error(env, m.functions, i + 1, count as int);
                }
                return Err(e);
            },
        }
        i += 1;
    }
    Ok(
        IrModule {
            package: module.package.clone(),
            name: module.name.clone(),
            functions: context.functions,
        },
    )
}

} // verus!
