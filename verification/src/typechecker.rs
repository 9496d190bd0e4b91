use vstd::prelude::*;
use crate::ast::{
    AssignmentEx,
    BinaryOpEx,
    BlockEx,
    CallEx,
    ExprView,
    Expression,
    FunctionContext,
    FunctionContextView,
    FunctionDeclaration,
    FunctionDeclarationEx,
    IfEx,
    Location,
    LocationView,
    Module,
    ModuleView,
    NumberLiteralEx,
    Parameter,
    ParameterView,
    StringLiteralEx,
    VariableEx,
};
use crate::error::{ErrorKind, ErrorView, LangError, error_at};
use crate::shapes::{
    BaseShapeKind,
    Shape,
    ShapeView,
    base,
    fill_shape,
    fill_spec,
    shape_boolean,
    shape_float,
    shape_string,
    shape_unit,
    shape_unknown,
};
use crate::support::{
    lemma_take_all,
    lemma_take_last,
    lemma_views_drop_last,
    lemma_views_push,
    text_is,
    views,
    NameMap,
    Table,
};

verus! {

/// The names that one function can see of its own: one table for each block
/// that is open, innermost last.
#[derive(Debug)]
pub struct FuncScope {
    pub blocks: Vec<NameMap<Shape>>,
}

impl View for FuncScope {
    type V = Seq<Table<ShapeView>>;

    open spec fn view(&self) -> Seq<Table<ShapeView>> {
        views(self.blocks@)
    }
}

/// The variables of enclosing functions that one function has used so far.
#[derive(Debug)]
pub struct ClosureList {
    pub items: Vec<Parameter>,
}

impl View for ClosureList {
    type V = Seq<ParameterView>;

    open spec fn view(&self) -> Seq<ParameterView> {
        views(self.items@)
    }
}

/// What the type checker knows where it stands: the module's functions, the
/// scopes of the functions it is inside of, innermost last, and for each of
/// them what it took from the functions around it.
#[derive(Debug)]
pub struct Scope {
    pub static_scope: NameMap<Shape>,
    pub function_stack: Vec<FuncScope>,
    pub closures_stack: Vec<ClosureList>,
}

/// The mathematical value of a [`Scope`].
pub struct ScopeView {
    pub static_scope: Table<ShapeView>,
    pub function_stack: Seq<Seq<Table<ShapeView>>>,
    pub closures_stack: Seq<Seq<ParameterView>>,
}

impl View for Scope {
    type V = ScopeView;

    open spec fn view(&self) -> ScopeView {
        ScopeView {
            static_scope: self.static_scope@,
            function_stack: views(self.function_stack@),
            closures_stack: views(self.closures_stack@),
        }
    }
}

/// The shape of `id` in the innermost block of `blocks` that declares it.
pub open spec fn find_in_blocks(blocks: Seq<Table<ShapeView>>, id: Seq<char>) -> Option<ShapeView>
    decreases blocks.len(),
{
    if blocks.len() == 0 {
        None
    } else {
        match blocks.last().get(id) {
            Some(shape) => Some(shape),
            None => find_in_blocks(blocks.drop_last(), id),
        }
    }
}

/// The innermost function of `functions` that declares `id`, by its place,
/// and the shape that `id` has there.
pub open spec fn find_in_functions(functions: Seq<Seq<Table<ShapeView>>>, id: Seq<char>) -> Option<
    (int, ShapeView),
>
    decreases functions.len(),
{
    if functions.len() == 0 {
        None
    } else {
        match find_in_blocks(functions.last(), id) {
            Some(shape) => Some((functions.len() - 1, shape)),
            None => find_in_functions(functions.drop_last(), id),
        }
    }
}

impl ScopeView {
    /// The scope of a module of which nothing is known yet.
    pub open spec fn empty() -> ScopeView {
        ScopeView {
            static_scope: Table::empty(),
            function_stack: Seq::empty(),
            closures_stack: Seq::empty(),
        }
    }

    /// The scope with `id` declared in the innermost block; `None` where that
    /// block declares `id` already, or where no block is open.
    pub open spec fn set_scope(self, id: Seq<char>, shape: ShapeView) -> Result<ScopeView, ErrorKind> {
        if self.function_stack.len() == 0 || self.function_stack.last().len() == 0 {
            Err(ErrorKind::NoActivation)
        } else {
            let blocks = self.function_stack.last();
            if blocks.last().has(id) {
                Err(ErrorKind::Redeclaration)
            } else {
                Ok(
                    ScopeView {
                        function_stack: self.function_stack.update(
                            self.function_stack.len() - 1,
                            blocks.update(blocks.len() - 1, blocks.last().insert(id, shape)),
                        ),
                        ..self
                    },
                )
            }
        }
    }

    /// The shape of the variable `id`, looked for from the innermost block
    /// outwards, through the enclosing functions, and last among the module's
    /// functions. Where an enclosing function declares it, the innermost
    /// function notes it as captured.
    pub open spec fn check_scope(self, id: Seq<char>) -> Option<(ShapeView, ScopeView)> {
        match find_in_functions(self.function_stack, id) {
            Some((place, shape)) => if place == self.function_stack.len() - 1
                || self.closures_stack.len() == 0 {
                Some((shape, self))
            } else {
                Some(
                    (
                        shape,
                        ScopeView {
                            closures_stack: self.closures_stack.update(
                                self.closures_stack.len() - 1,
                                self.closures_stack.last().push(ParameterView { id, shape }),
                            ),
                            ..self
                        },
                    ),
                )
            },
            None => match self.static_scope.get(id) {
                Some(shape) => Some((shape, self)),
                None => None,
            },
        }
    }

    /// The scope with one more block open in the innermost function.
    pub open spec fn create_block_scope(self) -> ScopeView {
        if self.function_stack.len() == 0 {
            self
        } else {
            ScopeView {
                function_stack: self.function_stack.update(
                    self.function_stack.len() - 1,
                    self.function_stack.last().push(Table::empty()),
                ),
                ..self
            }
        }
    }

    /// The scope with the innermost block closed.
    pub open spec fn destroy_block_scope(self) -> ScopeView {
        if self.function_stack.len() == 0 || self.function_stack.last().len() == 0 {
            self
        } else {
            ScopeView {
                function_stack: self.function_stack.update(
                    self.function_stack.len() - 1,
                    self.function_stack.last().drop_last(),
                ),
                ..self
            }
        }
    }

    /// The scope inside a new function: one block, nothing captured.
    pub open spec fn create_function_scope(self) -> ScopeView {
        ScopeView {
            function_stack: self.function_stack.push(seq![Table::empty()]),
            closures_stack: self.closures_stack.push(Seq::empty()),
            ..self
        }
    }

    /// What the innermost function captured.
    pub open spec fn captured(self) -> Seq<ParameterView> {
        if self.closures_stack.len() == 0 {
            Seq::empty()
        } else {
            self.closures_stack.last()
        }
    }

    /// The scope outside the innermost function.
    pub open spec fn destroy_function_scope(self) -> ScopeView {
        ScopeView {
            function_stack: if self.function_stack.len() == 0 {
                self.function_stack
            } else {
                self.function_stack.drop_last()
            },
            closures_stack: if self.closures_stack.len() == 0 {
                self.closures_stack
            } else {
                self.closures_stack.drop_last()
            },
            ..self
        }
    }
}

/// The shape on which what was declared and what was found agree. Where one
/// of the two is unknown the other decides; where both are, nothing does.
pub open spec fn verify_spec(defined: ShapeView, found: ShapeView) -> Result<ShapeView, ErrorKind> {
    if defined is Unknown {
        if found is Unknown {
            Err(ErrorKind::UnknownShape)
        } else {
            match fill_spec(found) {
                Some(shape) => Ok(shape),
                None => Err(ErrorKind::UnresolvedNamedShape),
            }
        }
    } else if found is Unknown {
        match fill_spec(defined) {
            Some(shape) => Ok(shape),
            None => Err(ErrorKind::UnresolvedNamedShape),
        }
    } else {
        match fill_spec(defined) {
            None => Err(ErrorKind::UnresolvedNamedShape),
            Some(filled_defined) => match fill_spec(found) {
                None => Err(ErrorKind::UnresolvedNamedShape),
                Some(filled_found) => if filled_defined == filled_found {
                    Ok(filled_found)
                } else {
                    Err(ErrorKind::IncompatibleTypes)
                },
            },
        }
    }
}

/// The shapes that a function's parameters are held against: the arguments
/// of the expected shape where that is a function shape, and else unknown
/// for each parameter.
pub open spec fn expected_args(expected: ShapeView, count: nat) -> Seq<ShapeView> {
    match expected {
        ShapeView::Function { args, result } => args,
        _ => Seq::new(count, |i: int| ShapeView::Unknown),
    }
}

/// The first `n` parameters, each with the shape on which its declaration
/// and the expected shape agree.
pub open spec fn verify_params_spec(
    params: Seq<ParameterView>,
    expected: Seq<ShapeView>,
    n: int,
) -> Result<Seq<ParameterView>, ErrorKind>
    decreases n,
{
    if n <= 0 {
        Ok(Seq::empty())
    } else {
        match verify_params_spec(params, expected, n - 1) {
            Err(kind) => Err(kind),
            Ok(done) => match verify_spec(expected[n - 1], params[n - 1].shape) {
                Err(kind) => Err(kind),
                Ok(shape) => Ok(done.push(ParameterView { id: params[n - 1].id, shape })),
            },
        }
    }
}

/// The smaller of two lengths.
pub open spec fn shorter(a: nat, b: nat) -> int {
    if a <= b {
        a as int
    } else {
        b as int
    }
}

/// The scope with each of `params` declared in the innermost block, in
/// order.
pub open spec fn bind_params_spec(s: ScopeView, params: Seq<ParameterView>) -> Result<
    ScopeView,
    ErrorKind,
>
    decreases params.len(),
{
    if params.len() == 0 {
        Ok(s)
    } else {
        match bind_params_spec(s, params.drop_last()) {
            Err(kind) => Err(kind),
            Ok(s1) => s1.set_scope(params.last().id, params.last().shape),
        }
    }
}

/// `closures` without the entries for `id`.
pub open spec fn without(closures: Seq<ParameterView>, id: Seq<char>) -> Seq<ParameterView>
    decreases closures.len(),
{
    if closures.len() == 0 {
        Seq::empty()
    } else if closures.last().id == id {
        without(closures.drop_last(), id)
    } else {
        without(closures.drop_last(), id).push(closures.last())
    }
}

/// Whether `closures` has an entry for `id`.
pub open spec fn mentions(closures: Seq<ParameterView>, id: Seq<char>) -> bool {
    exists|i: int| 0 <= i < closures.len() && (#[trigger] closures[i]).id == id
}

/// What the type checker found out about a function that captured `closures`: it
/// is recursive where it captured itself, and its closures are the rest.
pub open spec fn settle_context(
    context: FunctionContextView,
    closures: Seq<ParameterView>,
    id: Seq<char>,
) -> FunctionContextView {
    FunctionContextView {
        is_recursive: context.is_recursive || mentions(closures, id),
        closures: without(closures, id),
        ..context
    }
}

/// Whether `op` is one of the four operations on numbers.
pub open spec fn is_arithmetic(op: Seq<char>) -> bool {
    op == "+"@ || op == "-"@ || op == "*"@ || op == "/"@
}

/// Whether `op` is one of the six comparisons of numbers.
pub open spec fn is_comparison(op: Seq<char>) -> bool {
    op == "=="@ || op == "!="@ || op == "<"@ || op == ">"@ || op == "<="@ || op == ">="@
}

/// The result of a step of the type checker: an expression with the scope after
/// it, or an error.
pub type Checked = Result<(ExprView, ScopeView), ErrorView>;

/// The results of checking several expressions.
pub type CheckedAll = Result<(Seq<ExprView>, ScopeView), ErrorView>;

/// Each of `items` checked with nothing expected of it, in order.
pub open spec fn check_each_spec(s: ScopeView, items: Seq<ExprView>) -> CheckedAll
    decreases items, 0nat,
{
    if items.len() == 0 {
        Ok((Seq::empty(), s))
    } else {
        match check_each_spec(s, items.drop_last()) {
            Err(error) => Err(error),
            Ok((done, s1)) => match check_spec(s1, items.last(), ShapeView::Unknown) {
                Err(error) => Err(error),
                Ok((item, s2)) => Ok((done.push(item), s2)),
            },
        }
    }
}

/// Each of `args` checked against the shape at its place in `expected`; its
/// shape must then be that shape.
pub open spec fn check_args_spec(
    s: ScopeView,
    args: Seq<ExprView>,
    expected: Seq<ShapeView>,
    loc: LocationView,
) -> CheckedAll
    decreases args, 0nat,
{
    if args.len() == 0 {
        Ok((Seq::empty(), s))
    } else {
        match check_args_spec(s, args.drop_last(), expected, loc) {
            Err(error) => Err(error),
            Ok((done, s1)) => if args.len() > expected.len() {
                Err(error_at(ErrorKind::WrongArity, loc))
            } else {
                match check_spec(s1, args.last(), expected[args.len() - 1]) {
                    Err(error) => Err(error),
                    Ok((arg, s2)) => if arg.shape() != expected[args.len() - 1] {
                        Err(error_at(ErrorKind::IncompatibleTypes, loc))
                    } else {
                        Ok((done.push(arg), s2))
                    },
                }
            },
        }
    }
}

/// A function checked: its parameters are held against what is expected, its
/// name is declared around it where `bind` says so, its body is checked in a
/// scope of its own against the declared result, and what it captured is
/// settled.
pub open spec fn check_function_spec(s: ScopeView, e: ExprView, expected: ShapeView, bind: bool) -> Checked
    decreases e, 0nat,
{
    match e {
        ExprView::FunctionDeclaration { result, loc, id, params, body, context } => {
            let wanted = expected_args(expected, params.len());
            match verify_params_spec(params, wanted, shorter(params.len(), wanted.len())) {
                Err(kind) => Err(error_at(kind, loc)),
                Ok(args) => {
                    let around = if bind {
                        match fill_spec(e.shape()) {
                            None => Err(ErrorKind::UnresolvedNamedShape),
                            Some(shape) => s.set_scope(id, shape),
                        }
                    } else {
                        Ok(s)
                    };
                    match around {
                        Err(kind) => Err(error_at(kind, loc)),
                        Ok(s0) => match bind_params_spec(s0.create_function_scope(), args) {
                            Err(kind) => Err(error_at(kind, loc)),
                            Ok(s1) => match check_spec(s1, *body, result) {
                                Err(error) => Err(error),
                                Ok((checked_body, s2)) => match verify_spec(
                                    result,
                                    checked_body.shape(),
                                ) {
                                    Err(kind) => Err(error_at(kind, loc)),
                                    Ok(returned) => Ok(
                                        (
                                            ExprView::FunctionDeclaration {
                                                result: returned,
                                                loc,
                                                id,
                                                params: args,
                                                body: Box::new(checked_body),
                                                context: settle_context(context, s2.captured(), id),
                                            },
                                            s2.destroy_function_scope(),
                                        ),
                                    ),
                                },
                            },
                        },
                    }
                },
            }
        },
        _ => Err(error_at(ErrorKind::NotADeclaration, e.loc())),
    }
}

/// A block checked: its expressions in a block scope of their own, the last
/// against what is expected of the block, whose shape is the shape of the
/// last. An empty block has the shape unit.
pub open spec fn check_block_spec(s: ScopeView, e: ExprView, expected: ShapeView) -> Checked
    decreases e, 1nat,
{
    match e {
        ExprView::Block { loc, items, .. } => if items.len() == 0 {
            Ok((ExprView::Block { shape: base(BaseShapeKind::Unit), loc, items: Seq::empty() }, s))
        } else {
            match check_each_spec(s.create_block_scope(), items.drop_last()) {
                Err(error) => Err(error),
                Ok((done, s1)) => match check_spec(s1, items.last(), expected) {
                    Err(error) => Err(error),
                    Ok((last, s2)) => Ok(
                        (
                            ExprView::Block { shape: last.shape(), loc, items: done.push(last) },
                            s2.destroy_block_scope(),
                        ),
                    ),
                },
            }
        },
        _ => Err(error_at(ErrorKind::NotADeclaration, e.loc())),
    }
}

/// A call checked: the callee must have a function shape with as many
/// arguments as the call has, and each argument the shape of its parameter.
/// The call has the shape of the function's result.
pub open spec fn check_call_spec(s: ScopeView, e: ExprView) -> Checked
    decreases e, 1nat,
{
    match e {
        ExprView::Call { loc, func, args, .. } => match check_spec(s, *func, ShapeView::Unknown) {
            Err(error) => Err(error),
            Ok((callee, s1)) => match callee.shape() {
                ShapeView::Function { args: wanted, result } => if args.len() != wanted.len() {
                    Err(error_at(ErrorKind::WrongArity, loc))
                } else {
                    match check_args_spec(s1, args, wanted, loc) {
                        Err(error) => Err(error),
                        Ok((checked_args, s2)) => Ok(
                            (
                                ExprView::Call {
                                    shape: *result,
                                    loc,
                                    func: Box::new(callee),
                                    args: checked_args,
                                },
                                s2,
                            ),
                        ),
                    }
                },
                _ => Err(error_at(ErrorKind::NotAFunction, loc)),
            },
        },
        _ => Err(error_at(ErrorKind::NotAFunction, e.loc())),
    }
}

/// A condition checked: the test must be boolean, and the two arms must
/// agree on a shape, which is the shape of the whole.
pub open spec fn check_if_spec(s: ScopeView, e: ExprView) -> Checked
    decreases e, 1nat,
{
    match e {
        ExprView::If { loc, condition, then_block, else_block, .. } => match check_spec(
            s,
            *condition,
            base(BaseShapeKind::Boolean),
        ) {
            Err(error) => Err(error),
            Ok((test, s1)) => match verify_spec(base(BaseShapeKind::Boolean), test.shape()) {
                Err(kind) => Err(error_at(kind, loc)),
                Ok(_) => match check_spec(s1, *then_block, ShapeView::Unknown) {
                    Err(error) => Err(error),
                    Ok((first, s2)) => match check_spec(s2, *else_block, ShapeView::Unknown) {
                        Err(error) => Err(error),
                        Ok((second, s3)) => match verify_spec(first.shape(), second.shape()) {
                            Err(kind) => Err(error_at(kind, loc)),
                            Ok(shape) => Ok(
                                (
                                    ExprView::If {
                                        shape,
                                        loc,
                                        condition: Box::new(test),
                                        then_block: Box::new(first),
                                        else_block: Box::new(second),
                                    },
                                    s3,
                                ),
                            ),
                        },
                    },
                },
            },
        },
        _ => Err(error_at(ErrorKind::NotADeclaration, e.loc())),
    }
}

/// An operation on two numbers checked: the operator must be one of the ten,
/// both operands must be numbers, and the result is a number for the four
/// operations and boolean for the six comparisons.
pub open spec fn check_binary_spec(s: ScopeView, e: ExprView) -> Checked
    decreases e, 1nat,
{
    match e {
        ExprView::BinaryOp { loc, op, left, right, .. } => if !is_arithmetic(op) && !is_comparison(
            op,
        ) {
            Err(error_at(ErrorKind::UndeclaredVariable, loc))
        } else {
            match check_spec(s, *left, base(BaseShapeKind::Float)) {
                Err(error) => Err(error),
                Ok((first, s1)) => match check_spec(s1, *right, base(BaseShapeKind::Float)) {
                    Err(error) => Err(error),
                    Ok((second, s2)) => if first.shape() != base(BaseShapeKind::Float)
                        || second.shape() != base(BaseShapeKind::Float) {
                        Err(error_at(ErrorKind::IncompatibleTypes, loc))
                    } else {
                        Ok(
                            (
                                ExprView::BinaryOp {
                                    shape: if is_arithmetic(op) {
                                        base(BaseShapeKind::Float)
                                    } else {
                                        base(BaseShapeKind::Boolean)
                                    },
                                    loc,
                                    op,
                                    left: Box::new(first),
                                    right: Box::new(second),
                                },
                                s2,
                            ),
                        )
                    },
                },
            }
        },
        _ => Err(error_at(ErrorKind::NotADeclaration, e.loc())),
    }
}

/// An assignment checked: the body against the declared shape; the variable
/// is declared, in the innermost block, with the shape on which the two
/// agree.
pub open spec fn check_assignment_spec(s: ScopeView, e: ExprView) -> Checked
    decreases e, 1nat,
{
    match e {
        ExprView::Assignment { shape, loc, id, body } => match check_spec(s, *body, shape) {
            Err(error) => Err(error),
            Ok((checked_body, s1)) => match verify_spec(shape, checked_body.shape()) {
                Err(kind) => Err(error_at(kind, loc)),
                Ok(agreed) => match s1.set_scope(id, agreed) {
                    Err(kind) => Err(error_at(kind, loc)),
                    Ok(s2) => Ok(
                        (
                            ExprView::Assignment {
                                shape: agreed,
                                loc,
                                id,
                                body: Box::new(checked_body),
                            },
                            s2,
                        ),
                    ),
                },
            },
        },
        _ => Err(error_at(ErrorKind::NotADeclaration, e.loc())),
    }
}

/// An expression checked against `expected`: the same expression with every
/// shape in it found out, and the scope after it.
pub open spec fn check_spec(s: ScopeView, e: ExprView, expected: ShapeView) -> Checked
    decreases e, 2nat,
{
    match e {
        ExprView::NoOp { .. } => Ok((e, s)),
        ExprView::FunctionDeclaration { context, .. } => check_function_spec(
            s,
            e,
            expected,
            !context.is_lambda,
        ),
        ExprView::Assignment { .. } => check_assignment_spec(s, e),
        ExprView::Variable { loc, id, .. } => match s.check_scope(id) {
            Some((shape, after)) => Ok((ExprView::Variable { shape, loc, id }, after)),
            None => Err(error_at(ErrorKind::UndeclaredVariable, loc)),
        },
        ExprView::BinaryOp { .. } => check_binary_spec(s, e),
        ExprView::Call { .. } => check_call_spec(s, e),
        ExprView::If { .. } => check_if_spec(s, e),
        ExprView::Block { .. } => check_block_spec(s, e, expected),
        ExprView::StringLiteral { loc, value, .. } => Ok(
            (ExprView::StringLiteral { shape: base(BaseShapeKind::String), loc, value }, s),
        ),
        ExprView::NumberLiteral { loc, value, .. } => Ok(
            (ExprView::NumberLiteral { shape: base(BaseShapeKind::Float), loc, value }, s),
        ),
        ExprView::BooleanLiteral { .. } => Ok((e, s)),
    }
}

/// The static scope after the first `n` functions of the module were
/// entered: each under its name with its declared shape, filled.
pub open spec fn prefill_spec(functions: Seq<ExprView>, n: int) -> Result<Table<ShapeView>, ErrorView>
    decreases n,
{
    if n <= 0 {
        Ok(Table::empty())
    } else {
        match prefill_spec(functions, n - 1) {
            Err(error) => Err(error),
            Ok(table) => match fill_spec(functions[n - 1].shape()) {
                None => Err(error_at(ErrorKind::UnresolvedNamedShape, functions[n - 1].loc())),
                Some(shape) => Ok(table.insert(crate::lower::id_of(functions[n - 1]), shape)),
            },
        }
    }
}

/// The first `n` functions of the module checked, in order.
pub open spec fn check_functions_spec(s: ScopeView, functions: Seq<ExprView>, n: int) -> CheckedAll
    decreases n,
{
    if n <= 0 {
        Ok((Seq::empty(), s))
    } else {
        match check_functions_spec(s, functions, n - 1) {
            Err(error) => Err(error),
            Ok((done, s1)) => match check_function_spec(
                s1,
                functions[n - 1],
                ShapeView::Unknown,
                false,
            ) {
                Err(error) => Err(error),
                Ok((f, s2)) => Ok((done.push(f), s2)),
            },
        }
    }
}

/// The module checked: first every function is entered into the static scope
/// under its name, then each function is checked.
pub open spec fn check_module_spec(m: ModuleView) -> Result<ModuleView, ErrorView> {
    match prefill_spec(m.functions, m.functions.len() as int) {
        Err(error) => Err(error),
        Ok(table) => match check_functions_spec(
            ScopeView { static_scope: table, ..ScopeView::empty() },
            m.functions,
            m.functions.len() as int,
        ) {
            Err(error) => Err(error),
            Ok((functions, _)) => Ok(ModuleView { package: m.package, name: m.name, functions }),
        },
    }
}

/// Where the first `n` functions cannot be entered, neither can the first
/// `k`, for `k` from `n` on, for the same reason.
pub proof fn lemma_prefill_error(functions: Seq<ExprView>, n: int, k: int)
    requires
        n <= k,
        prefill_spec(functions, n) is Err,
    ensures
        prefill_spec(functions, k) == prefill_spec(functions, n),
    decreases k - n,
{
    if n < k {
        lemma_prefill_error(functions, n, k - 1);
    }
}

/// Where the first `n` functions do not check, neither do the first `k`, for
/// `k` from `n` on, for the same reason.
pub proof fn lemma_check_functions_error(s: ScopeView, functions: Seq<ExprView>, n: int, k: int)
    requires
        n <= k,
        check_functions_spec(s, functions, n) is Err,
    ensures
        check_functions_spec(s, functions, k) == check_functions_spec(s, functions, n),
    decreases k - n,
{
    if n < k {
        lemma_check_functions_error(s, functions, n, k - 1);
    }
}

/// Where the first `n` expressions do not check, neither do all of them, for
/// the same reason.
pub proof fn lemma_check_each_error(s: ScopeView, items: Seq<ExprView>, n: int)
    requires
        0 <= n <= items.len(),
        check_each_spec(s, items.take(n)) is Err,
    ensures
        check_each_spec(s, items) == check_each_spec(s, items.take(n)),
    decreases items.len(),
{
    if n < items.len() {
        assert(items.drop_last().take(n) =~= items.take(n));
        lemma_check_each_error(s, items.drop_last(), n);
    } else {
        lemma_take_all(items);
    }
}

/// Where the first `n` arguments do not check, neither do all of them, for
/// the same reason.
pub proof fn lemma_check_args_error(
    s: ScopeView,
    args: Seq<ExprView>,
    expected: Seq<ShapeView>,
    loc: LocationView,
    n: int,
)
    requires
        0 <= n <= args.len(),
        check_args_spec(s, args.take(n), expected, loc) is Err,
    ensures
        check_args_spec(s, args, expected, loc) == check_args_spec(s, args.take(n), expected, loc),
    decreases args.len(),
{
    if n < args.len() {
        assert(args.drop_last().take(n) =~= args.take(n));
        lemma_check_args_error(s, args.drop_last(), expected, loc, n);
    } else {
        lemma_take_all(args);
    }
}

/// Where the first `n` parameters do not verify, neither do the first `k`,
/// for `k` from `n` on, for the same reason.
pub proof fn lemma_verify_params_error(
    params: Seq<ParameterView>,
    expected: Seq<ShapeView>,
    n: int,
    k: int,
)
    requires
        n <= k,
        verify_params_spec(params, expected, n) is Err,
    ensures
        verify_params_spec(params, expected, k) == verify_params_spec(params, expected, n),
    decreases k - n,
{
    if n < k {
        lemma_verify_params_error(params, expected, n, k - 1);
    }
}

/// Where the first `n` parameters cannot be declared, neither can all of
/// them, for the same reason.
pub proof fn lemma_bind_params_error(s: ScopeView, params: Seq<ParameterView>, n: int)
    requires
        0 <= n <= params.len(),
        bind_params_spec(s, params.take(n)) is Err,
    ensures
        bind_params_spec(s, params) == bind_params_spec(s, params.take(n)),
    decreases params.len(),
{
    if n < params.len() {
        assert(params.drop_last().take(n) =~= params.take(n));
        lemma_bind_params_error(s, params.drop_last(), n);
    } else {
        lemma_take_all(params);
    }
}

impl FuncScope {
    /// Every block's table is well formed.
    pub open spec fn wf(&self) -> bool {
        forall|i: int| 0 <= i < self.blocks@.len() ==> (#[trigger] self.blocks@[i]).wf()
    }

    /// The shape of `id` in the innermost block that declares it.
    pub fn find(&self, id: &String) -> (r: Option<Shape>)
        requires
            self.wf(),
        ensures
            match r {
                Some(shape) => find_in_blocks(self@, id@) == Some(shape@),
                None => find_in_blocks(self@, id@) is None,
            },
    {
        let ghost whole = views(self.blocks@);
        let mut i: usize = self.blocks.len();
        proof {
            lemma_take_all(whole);
        }
        while i > 0
            invariant
                i <= self.blocks@.len(),
                self.wf(),
                whole == views(self.blocks@),
                find_in_blocks(whole, id@) == find_in_blocks(whole.take(i as int), id@),
            decreases i,
        {
            proof {
                lemma_take_last(whole, i as int);
            }
            match self.blocks[i - 1].get(id) {
                Some(shape) => {
                    return Some(shape.clone());
                },
                None => {},
            }
            i -= 1;
        }
        proof {
            lemma_take_all(whole);
        }
        None
    }
}

impl Scope {
    /// Every table in the scope is well formed.
    pub open spec fn wf(&self) -> bool {
        &&& self.static_scope.wf()
        &&& forall|i: int| 0 <= i < self.function_stack@.len() ==> (#[trigger] self.function_stack@[i]).wf()
    }

    pub fn new() -> (r: Scope)
        ensures
            r.wf(),
            r@ == ScopeView::empty(),
    {
        let r = Scope {
            static_scope: NameMap::new(),
            function_stack: Vec::new(),
            closures_stack: Vec::new(),
        };
        assert(views(r.function_stack@) =~= Seq::<Seq<Table<ShapeView>>>::empty());
        assert(views(r.closures_stack@) =~= Seq::<Seq<ParameterView>>::empty());
        r
    }

    /// Enters a function of the module into the static scope, under its name
    /// and with its shape filled.
    pub fn pre_fill_module_function(&mut self, id: String, shape: Shape, loc: &Location) -> (r: Result<
        (),
        LangError,
    >)
        requires
            old(self).wf(),
        ensures
            final(self).wf(),
            match r {
                Ok(_) => fill_spec(shape@) is Some && final(self)@ == (ScopeView {
                    static_scope: old(self)@.static_scope.insert(id@, fill_spec(shape@).unwrap()),
                    ..old(self)@
                }),
                Err(e) => fill_spec(shape@) is None && e@ == error_at(
                    ErrorKind::UnresolvedNamedShape,
                    loc@,
                ),
            },
    {
        let shape = fill_shape(&shape, loc)?;
        self.static_scope.insert(id, shape);
        Ok(())
    }

    /// Declares `id` with `shape` in the innermost block. Fails, and leaves
    /// the scope as it is, where that block declares `id` already.
    pub fn set_scope(&mut self, id: &String, shape: &Shape, loc: &Location) -> (r: Result<
        (),
        LangError,
    >)
        requires
            old(self).wf(),
        ensures
            final(self).wf(),
            match r {
                Ok(_) => old(self)@.set_scope(id@, shape@) == Ok::<_, ErrorKind>(final(self)@),
                Err(e) => match old(self)@.set_scope(id@, shape@) {
                    Err(kind) => e@ == error_at(kind, loc@) && *final(self) == *old(self),
                    Ok(_) => false,
                },
            },
    {
        let ghost functions = self.function_stack@;
        let depth = self.function_stack.len();
        if depth == 0 {
            return Err(LangError::at(ErrorKind::NoActivation, loc));
        }
        let open = self.function_stack[depth - 1].blocks.len();
        if open == 0 {
            return Err(LangError::at(ErrorKind::NoActivation, loc));
        }
        assert(self.function_stack@[depth - 1].wf());
        if self.function_stack[depth - 1].blocks[open - 1].contains_key(id) {
            return Err(LangError::at(ErrorKind::Redeclaration, loc));
        }
        let mut func = self.function_stack.pop().unwrap();
        proof {
            lemma_views_drop_last(functions);
        }
        let ghost blocks = func.blocks@;
        let mut block = func.blocks.pop().unwrap();
        proof {
            lemma_views_drop_last(blocks);
        }
        block.insert(id.clone(), shape.clone());
        let ghost rest_blocks = func.blocks@;
        func.blocks.push(block);
        let ghost rest = self.function_stack@;
        self.function_stack.push(func);
        proof {
            lemma_views_push(rest_blocks, block);
            lemma_views_push(rest, func);
            assert(views(func.blocks@) =~= views(blocks).update(
                blocks.len() - 1,
                views(blocks).last().insert(id@, shape@),
            ));
            assert(views(self.function_stack@) =~= views(functions).update(
                functions.len() - 1,
                func@,
            ));
        }
        Ok(())
    }

    /// The innermost function that declares `id`, by its place, and the
    /// shape that `id` has there.
    fn find(&self, id: &String) -> (r: Option<(usize, Shape)>)
        requires
            self.wf(),
        ensures
            match r {
                Some((place, shape)) => find_in_functions(self@.function_stack, id@) == Some(
                    (place as int, shape@),
                ) && place < self.function_stack@.len(),
                None => find_in_functions(self@.function_stack, id@) is None,
            },
    {
        let ghost whole = views(self.function_stack@);
        let mut i: usize = self.function_stack.len();
        proof {
            lemma_take_all(whole);
        }
        while i > 0
            invariant
                i <= self.function_stack@.len(),
                self.wf(),
                whole == views(self.function_stack@),
                find_in_functions(whole, id@) == find_in_functions(whole.take(i as int), id@),
            decreases i,
        {
            proof {
                lemma_take_last(whole, i as int);
            }
            match self.function_stack[i - 1].find(id) {
                Some(shape) => {
                    return Some((i - 1, shape));
                },
                None => {},
            }
            i -= 1;
        }
        proof {
            lemma_take_all(whole);
        }
        None
    }

    /// The shape of the variable `id`. Where an enclosing function declares
    /// it, the innermost function notes it as captured. Fails where nothing
    /// declares it.
    pub fn check_scope(&mut self, id: &String, loc: &Location) -> (r: Result<Shape, LangError>)
        requires
            old(self).wf(),
        ensures
            final(self).wf(),
            match r {
                Ok(shape) => old(self)@.check_scope(id@) == Some((shape@, final(self)@)),
                Err(e) => old(self)@.check_scope(id@) is None && e@ == error_at(
                    ErrorKind::UndeclaredVariable,
                    loc@,
                ) && *final(self) == *old(self),
            },
    {
        match self.find(id) {
            Some((place, shape)) => {
                let depth = self.function_stack.len();
                if place + 1 != depth {
                    let ghost lists = self.closures_stack@;
                    match self.closures_stack.pop() {
                        Some(list) => {
                            let mut list = list;
                            let ghost items = list.items@;
                            let param = Parameter { id: id.clone(), shape: shape.clone() };
                            list.items.push(param);
                            let ghost rest = self.closures_stack@;
                            self.closures_stack.push(list);
                            proof {
                                lemma_views_drop_last(lists);
                                lemma_views_push(items, param);
                                lemma_views_push(rest, list);
                                assert(views(self.closures_stack@) =~= views(lists).update(
                                    lists.len() - 1,
                                    views(lists).last().push(param@),
                                ));
                            }
                        },
                        None => {},
                    }
                }
                Ok(shape)
            },
            None => match self.static_scope.get(id) {
                Some(shape) => Ok(shape.clone()),
                None => Err(LangError::at(ErrorKind::UndeclaredVariable, loc)),
            },
        }
    }

    /// Opens a block in the innermost function.
    pub fn create_block_scope(&mut self)
        requires
            old(self).wf(),
        ensures
            final(self).wf(),
            final(self)@ == old(self)@.create_block_scope(),
    {
        let ghost functions = self.function_stack@;
        match self.function_stack.pop() {
            Some(func) => {
                let mut func = func;
                let ghost blocks = func.blocks@;
                let block: NameMap<Shape> = NameMap::new();
                func.blocks.push(block);
                let ghost rest = self.function_stack@;
                self.function_stack.push(func);
                proof {
                    lemma_views_drop_last(functions);
                    lemma_views_push(blocks, block);
                    lemma_views_push(rest, func);
                    assert(views(self.function_stack@) =~= views(functions).update(
                        functions.len() - 1,
                        func@,
                    ));
                }
            },
            None => {},
        }
    }

    /// Closes the innermost block.
    pub fn destroy_block_scope(&mut self)
        requires
            old(self).wf(),
        ensures
            final(self).wf(),
            final(self)@ == old(self)@.destroy_block_scope(),
    {
        let ghost functions = self.function_stack@;
        match self.function_stack.pop() {
            Some(func) => {
                let mut func = func;
                let ghost blocks = func.blocks@;
                let _ = func.blocks.pop();
                let ghost rest = self.function_stack@;
                self.function_stack.push(func);
                proof {
                    lemma_views_drop_last(functions);
                    lemma_views_push(rest, func);
                    if blocks.len() > 0 {
                        lemma_views_drop_last(blocks);
                    }
                    assert(views(self.function_stack@) =~= views(functions).update(
                        functions.len() - 1,
                        func@,
                    ));
                    assert(views(self.function_stack@) =~= old(
                        self,
                    )@.destroy_block_scope().function_stack);
                }
            },
            None => {},
        }
    }

    /// Enters a function: one block, nothing captured.
    pub fn create_function_scope(&mut self)
        requires
            old(self).wf(),
        ensures
            final(self).wf(),
            final(self)@ == old(self)@.create_function_scope(),
    {
        let ghost functions = self.function_stack@;
        let ghost lists = self.closures_stack@;
        let block: NameMap<Shape> = NameMap::new();
        let mut blocks: Vec<NameMap<Shape>> = Vec::new();
        blocks.push(block);
        assert(views(blocks@) =~= seq![Table::<ShapeView>::empty()]);
        let func = FuncScope { blocks };
        self.function_stack.push(func);
        let list = ClosureList { items: Vec::new() };
        assert(views(list.items@) =~= Seq::<ParameterView>::empty());
        self.closures_stack.push(list);
        proof {
            lemma_views_push(functions, func);
            lemma_views_push(lists, list);
        }
    }

    /// Leaves the innermost function and hands back what it captured.
    pub fn destroy_function_scope(&mut self) -> (r: Vec<Parameter>)
        requires
            old(self).wf(),
        ensures
            final(self).wf(),
            final(self)@ == old(self)@.destroy_function_scope(),
            views(r@) == old(self)@.captured(),
    {
        let ghost functions = self.function_stack@;
        let ghost lists = self.closures_stack@;
        let _ = self.function_stack.pop();
        proof {
            if functions.len() > 0 {
                lemma_views_drop_last(functions);
            }
            if lists.len() > 0 {
                lemma_views_drop_last(lists);
            }
        }
        match self.closures_stack.pop() {
            Some(list) => list.items,
            None => {
                let none: Vec<Parameter> = Vec::new();
                assert(views(none@) =~= Seq::<ParameterView>::empty());
                none
            },
        }
    }
}

/// What an expression is checked to: the expression that the model gives,
/// with the scope that the model gives; or the error that the model gives.
pub open spec fn checked(after: Scope, r: Result<Expression, LangError>, model: Checked) -> bool {
    &&& after.wf()
    &&& match r {
        Ok(e) => model == Ok::<_, ErrorView>((e@, after@)),
        Err(error) => model == Err::<(ExprView, ScopeView), _>(error@),
    }
}

/// What several expressions are checked to.
pub open spec fn checked_all(
    after: Scope,
    r: Result<Vec<Expression>, LangError>,
    model: CheckedAll,
) -> bool {
    &&& after.wf()
    &&& match r {
        Ok(items) => model == Ok::<_, ErrorView>((views(items@), after@)),
        Err(error) => model == Err::<(Seq<ExprView>, ScopeView), _>(error@),
    }
}

/// The shape on which what was declared and what was found agree.
pub fn verify(defined: &Shape, found: &Shape, loc: &Location) -> (r: Result<Shape, LangError>)
    ensures
        match r {
            Ok(shape) => verify_spec(defined@, found@) == Ok::<_, ErrorKind>(shape@),
            Err(e) => match verify_spec(defined@, found@) {
                Err(kind) => e@ == error_at(kind, loc@),
                Ok(_) => false,
            },
        },
{
    let defined_unknown = match defined {
        Shape::UnknownShape => true,
        _ => false,
    };
    let found_unknown = match found {
        Shape::UnknownShape => true,
        _ => false,
    };
    if defined_unknown {
        if found_unknown {
            Err(LangError::at(ErrorKind::UnknownShape, loc))
        } else {
            fill_shape(found, loc)
        }
    } else if found_unknown {
        fill_shape(defined, loc)
    } else {
        let filled_defined = fill_shape(defined, loc)?;
        let filled_found = fill_shape(found, loc)?;
        if filled_defined.same(&filled_found) {
            Ok(filled_found)
        } else {
            Err(LangError::at(ErrorKind::IncompatibleTypes, loc))
        }
    }
}

/// The parameters of a function, each with the shape on which its
/// declaration and the expected shape agree. Where fewer shapes are expected
/// than there are parameters, the parameters beyond them are left out.
pub fn verify_function_declaration(parameters: &Vec<Parameter>, expected: &Shape, loc: &Location) -> (r:
    Result<Vec<Parameter>, LangError>)
    ensures
        match r {
            Ok(args) => verify_params_spec(
                views(parameters@),
                expected_args(expected@, parameters@.len()),
                shorter(parameters@.len(), expected_args(expected@, parameters@.len()).len()),
            ) == Ok::<_, ErrorKind>(views(args@)),
            Err(e) => match verify_params_spec(
                views(parameters@),
                expected_args(expected@, parameters@.len()),
                shorter(parameters@.len(), expected_args(expected@, parameters@.len()).len()),
            ) {
                Err(kind) => e@ == error_at(kind, loc@),
                Ok(_) => false,
            },
        },
{
    proof {
        expected.lemma_model();
    }
    let ghost params = views(parameters@);
    let ghost wanted = expected_args(expected@, parameters@.len());
    let mut filled_args: Vec<Parameter> = Vec::new();
    assert(views(filled_args@) =~= Seq::<ParameterView>::empty());
    match expected {
        Shape::SimpleFunctionShape { args, result } => {
            let count = if parameters.len() <= args.len() {
                parameters.len()
            } else {
                args.len()
            };
            let mut i: usize = 0;
            while i < count
                invariant
                    i <= count,
                    count == shorter(parameters@.len(), wanted.len()),
                    params == views(parameters@),
                    wanted == views(args@),
                    wanted == expected_args(expected@, parameters@.len()),
                    verify_params_spec(params, wanted, i as int) == Ok::<_, ErrorKind>(
                        views(filled_args@),
                    ),
                decreases count - i,
            {
                let ghost before = filled_args@;
                match verify(&args[i], &parameters[i].shape, loc) {
                    Ok(shape) => {
                        let param = Parameter { id: parameters[i].id.clone(), shape };
                        filled_args.push(param);
                        proof {
                            lemma_views_push(before, param);
                        }
                    },
                    Err(e) => {
                        proof {
                            lemma_verify_params_error(params, wanted, i + 1, count as int);
                        }
                        return Err(e);
                    },
                }
                i += 1;
            }
            Ok(filled_args)
        },
        _ => {
            let unknown = shape_unknown();
            let count = parameters.len();
            let mut i: usize = 0;
            while i < count
                invariant
                    i <= count,
                    count == parameters@.len(),
                    count == shorter(parameters@.len(), wanted.len()),
                    params == views(parameters@),
                    wanted == expected_args(expected@, parameters@.len()),
                    wanted.len() == parameters@.len(),
                    forall|j: int| 0 <= j < wanted.len() ==> wanted[j] == ShapeView::Unknown,
                    unknown@ == ShapeView::Unknown,
                    verify_params_spec(params, wanted, i as int) == Ok::<_, ErrorKind>(
                        views(filled_args@),
                    ),
                decreases count - i,
            {
                let ghost before = filled_args@;
                match verify(&unknown, &parameters[i].shape, loc) {
                    Ok(shape) => {
                        let param = Parameter { id: parameters[i].id.clone(), shape };
                        filled_args.push(param);
                        proof {
                            lemma_views_push(before, param);
                        }
                    },
                    Err(e) => {
                        proof {
                            lemma_verify_params_error(params, wanted, i + 1, count as int);
                        }
                        return Err(e);
                    },
                }
                i += 1;
            }
            Ok(filled_args)
        },
    }
}

/// Declares each of `params` in the innermost block, in order.
fn bind_params(scope: &mut Scope, params: &Vec<Parameter>, loc: &Location) -> (r: Result<
    (),
    LangError,
>)
    requires
        old(scope).wf(),
    ensures
        final(scope).wf(),
        match r {
            Ok(_) => bind_params_spec(old(scope)@, views(params@)) == Ok::<_, ErrorKind>(
                final(scope)@,
            ),
            Err(e) => match bind_params_spec(old(scope)@, views(params@)) {
                Err(kind) => e@ == error_at(kind, loc@),
                Ok(_) => false,
            },
        },
{
    let ghost whole = views(params@);
    let ghost start = scope@;
    let mut i: usize = 0;
    proof {
        lemma_take_all(whole);
    }
    while i < params.len()
        invariant
            i <= params@.len(),
            whole == views(params@),
            start == old(scope)@,
            scope.wf(),
            bind_params_spec(start, whole.take(i as int)) == Ok::<_, ErrorKind>(scope@),
        decreases params@.len() - i,
    {
        proof {
            lemma_take_last(whole, i + 1);
        }
        match scope.set_scope(&params[i].id, &params[i].shape, loc) {
            Ok(_) => {},
            Err(e) => {
                proof {
                    lemma_bind_params_error(start, whole, i + 1);
                }
                return Err(e);
            },
        }
        i += 1;
    }
    proof {
        lemma_take_all(whole);
    }
    Ok(())
}

/// What the type checker found out about a function that captured `closures`.
fn settle(context: &FunctionContext, closures: Vec<Parameter>, id: &String) -> (r: FunctionContext)
    ensures
        r@ == settle_context(context@, views(closures@), id@),
{
    let ghost whole = views(closures@);
    let mut kept: Vec<Parameter> = Vec::new();
    let mut seen = false;
    let mut i: usize = 0;
    proof {
        assert(views(kept@) =~= Seq::<ParameterView>::empty());
        lemma_take_all(whole);
    }
    while i < closures.len()
        invariant
            i <= closures@.len(),
            whole == views(closures@),
            views(kept@) == without(whole.take(i as int), id@),
            seen == mentions(whole.take(i as int), id@),
        decreases closures@.len() - i,
    {
        proof {
            lemma_take_last(whole, i + 1);
        }
        let ghost before = kept@;
        let ghost upto = whole.take(i as int);
        let ghost next = whole.take(i + 1);
        if closures[i].id == *id {
            proof {
                assert(next[i as int].id == id@);
            }
            seen = true;
        } else {
            let copy = closures[i].clone();
            kept.push(copy);
            proof {
                lemma_views_push(before, copy);
                if mentions(next, id@) {
                    let j = choose|j: int| 0 <= j < next.len() && (#[trigger] next[j]).id == id@;
                    assert(upto[j].id == id@);
                }
                if mentions(upto, id@) {
                    let j = choose|j: int| 0 <= j < upto.len() && (#[trigger] upto[j]).id == id@;
                    assert(next[j].id == id@);
                }
            }
        }
        proof {
            if seen && !mentions(next, id@) {
                if mentions(upto, id@) {
                    let j = choose|j: int| 0 <= j < upto.len() && (#[trigger] upto[j]).id == id@;
                    assert(next[j].id == id@);
                }
            }
        }
        i += 1;
    }
    proof {
        lemma_take_all(whole);
    }
    let settled = if seen {
        context.set_is_recursive(true).set_closures(kept)
    } else {
        context.set_closures(kept)
    };
    settled
}

/// Checks a function; see `check_function_spec`.
pub fn check_function(
    ex: &FunctionDeclarationEx,
    scope: &mut Scope,
    expected: &Shape,
    bind: bool,
) -> (r: Result<Expression, LangError>)
    requires
        old(scope).wf(),
    ensures
        checked(*final(scope), r, check_function_spec(old(scope)@, ex@, expected@, bind)),
    decreases ex, 0nat,
{
    let args = verify_function_declaration(&ex.args, expected, &ex.loc)?;
    if bind {
        let declared = fill_shape(&ex.shape(), &ex.loc)?;
        scope.set_scope(&ex.id, &declared, &ex.loc)?;
    }
    scope.create_function_scope();
    bind_params(scope, &args, &ex.loc)?;
    let body = check(scope, &ex.body, &ex.result)?;
    let returned_shape = body.shape();
    let result = verify(&ex.result, &returned_shape, &ex.loc)?;
    let closures = scope.destroy_function_scope();
    let context = settle(&ex.context, closures, &ex.id);
    Ok(
        FunctionDeclarationEx {
            result,
            body,
            id: ex.id.clone(),
            args,
            loc: ex.loc.clone(),
            context,
        }.wrap(),
    )
}

/// Checks the first `count` of `items`, each with nothing expected of it.
pub fn check_each(items: &Vec<Expression>, count: usize, scope: &mut Scope) -> (r: Result<
    Vec<Expression>,
    LangError,
>)
    requires
        old(scope).wf(),
        count <= items@.len(),
    ensures
        checked_all(*final(scope), r, check_each_spec(old(scope)@, views(items@).take(count as int))),
    decreases items, 0nat,
{
    let ghost whole = views(items@).take(count as int);
    let ghost start = scope@;
    let unknown = shape_unknown();
    let mut body: Vec<Expression> = Vec::new();
    let mut i: usize = 0;
    proof {
        assert(views(body@) =~= Seq::<ExprView>::empty());
        lemma_take_all(whole);
    }
    while i < count
        invariant
            i <= count,
            count <= items@.len(),
            whole == views(items@).take(count as int),
            start == old(scope)@,
            unknown@ == ShapeView::Unknown,
            scope.wf(),
            check_each_spec(start, whole.take(i as int)) == Ok::<_, ErrorView>(
                (views(body@), scope@),
            ),
        decreases count - i,
    {
        proof {
            broadcast use vstd::std_specs::vec::axiom_vec_index_decreases;

            lemma_take_last(whole, i + 1);
            assert(whole[i as int] == items@[i as int]@);
        }
        let ghost before = body@;
        match check(scope, &items[i], &unknown) {
            Ok(item) => {
                body.push(item);
                proof {
                    lemma_views_push(before, item);
                }
            },
            Err(e) => {
                proof {
                    lemma_check_each_error(start, whole, i + 1);
                }
                return Err(e);
            },
        }
        i += 1;
    }
    proof {
        lemma_take_all(whole);
    }
    Ok(body)
}

/// Checks each of `args` against the shape at its place in `expected`.
pub fn check_args(
    args: &Vec<Expression>,
    expected: &Vec<Shape>,
    loc: &Location,
    scope: &mut Scope,
) -> (r: Result<Vec<Expression>, LangError>)
    requires
        old(scope).wf(),
    ensures
        checked_all(
            *final(scope),
            r,
            check_args_spec(old(scope)@, views(args@), views(expected@), loc@),
        ),
    decreases args, 0nat,
{
    let ghost whole = views(args@);
    let ghost wanted = views(expected@);
    let ghost start = scope@;
    let mut out: Vec<Expression> = Vec::new();
    let mut i: usize = 0;
    proof {
        assert(views(out@) =~= Seq::<ExprView>::empty());
        lemma_take_all(whole);
    }
    while i < args.len()
        invariant
            i <= args@.len(),
            whole == views(args@),
            wanted == views(expected@),
            start == old(scope)@,
            scope.wf(),
            check_args_spec(start, whole.take(i as int), wanted, loc@) == Ok::<_, ErrorView>(
                (views(out@), scope@),
            ),
        decreases args@.len() - i,
    {
        proof {
            broadcast use vstd::std_specs::vec::axiom_vec_index_decreases;

            lemma_take_last(whole, i + 1);
        }
        let ghost before = out@;
        if i >= expected.len() {
            proof {
                lemma_check_args_error(start, whole, wanted, loc@, i + 1);
            }
            return Err(LangError::at(ErrorKind::WrongArity, loc));
        }
        match check(scope, &args[i], &expected[i]) {
            Ok(arg) => {
                if !arg.shape().same(&expected[i]) {
                    proof {
                        lemma_check_args_error(start, whole, wanted, loc@, i + 1);
                    }
                    return Err(LangError::at(ErrorKind::IncompatibleTypes, loc));
                }
                out.push(arg);
                proof {
                    lemma_views_push(before, arg);
                }
            },
            Err(e) => {
                proof {
                    lemma_check_args_error(start, whole, wanted, loc@, i + 1);
                }
                return Err(e);
            },
        }
        i += 1;
    }
    proof {
        lemma_take_all(whole);
    }
    Ok(out)
}

impl FunctionDeclarationEx {
    /// Checks a function that is declared inside another. Unless it is a
    /// lambda, its name is declared in the block around it.
    pub fn check(&self, scope: &mut Scope, expected: &Shape) -> (r: Result<Expression, LangError>)
        requires
            old(scope).wf(),
        ensures
            checked(
                *final(scope),
                r,
                check_function_spec(old(scope)@, self@, expected@, !self.context.is_lambda),
            ),
        decreases self, 1nat,
    {
        check_function(self, scope, expected, !self.context.is_lambda)
    }
}

impl BlockEx {
    pub fn check(&self, scope: &mut Scope, expected: &Shape) -> (r: Result<Expression, LangError>)
        requires
            old(scope).wf(),
        ensures
            checked(*final(scope), r, check_block_spec(old(scope)@, self@, expected@)),
        decreases self, 1nat,
    {
        let count = self.body.len();
        if count == 0 {
            let none: Vec<Expression> = Vec::new();
            assert(views(none@) =~= Seq::<ExprView>::empty());
            Ok(BlockEx { shape: shape_unit(), loc: self.loc.clone(), body: none }.wrap())
        } else {
            scope.create_block_scope();
            proof {
                broadcast use vstd::std_specs::vec::axiom_vec_index_decreases;

                lemma_take_last(views(self.body@), count as int);
                lemma_take_all(views(self.body@));
            }
            let mut body = check_each(&self.body, count - 1, scope)?;
            let last = check(scope, &self.body[count - 1], expected)?;
            let shape = last.shape();
            let ghost before = body@;
            body.push(last);
            proof {
                lemma_views_push(before, last);
            }
            scope.destroy_block_scope();
            Ok(BlockEx { shape, loc: self.loc.clone(), body }.wrap())
        }
    }
}

impl AssignmentEx {
    pub fn check(&self, scope: &mut Scope, expected: &Shape) -> (r: Result<Expression, LangError>)
        requires
            old(scope).wf(),
        ensures
            checked(*final(scope), r, check_assignment_spec(old(scope)@, self@)),
        decreases self, 1nat,
    {
        let body = check(scope, &self.body, &self.shape)?;
        let shape = verify(&self.shape, &body.shape(), &self.loc)?;
        scope.set_scope(&self.id, &shape, &self.loc)?;
        Ok(AssignmentEx { shape, id: self.id.clone(), loc: self.loc.clone(), body }.wrap())
    }
}

/// Whether `op` is one of the four operations on numbers.
fn arithmetic_operator(op: &String) -> (r: bool)
    ensures
        r == is_arithmetic(op@),
{
    text_is(op, "+") || text_is(op, "-") || text_is(op, "*") || text_is(op, "/")
}

/// Whether `op` is one of the six comparisons of numbers.
fn comparison_operator(op: &String) -> (r: bool)
    ensures
        r == is_comparison(op@),
{
    text_is(op, "==") || text_is(op, "!=") || text_is(op, "<") || text_is(op, ">") || text_is(
        op,
        "<=",
    ) || text_is(op, ">=")
}

impl BinaryOpEx {
    pub fn check(&self, scope: &mut Scope, expected: &Shape) -> (r: Result<Expression, LangError>)
        requires
            old(scope).wf(),
        ensures
            checked(*final(scope), r, check_binary_spec(old(scope)@, self@)),
        decreases self, 1nat,
    {
        let arithmetic = arithmetic_operator(&self.op);
        if !arithmetic && !comparison_operator(&self.op) {
            return Err(LangError::at(ErrorKind::UndeclaredVariable, &self.loc));
        }
        let number = shape_float();
        let left = check(scope, &self.left, &number)?;
        let right = check(scope, &self.right, &number)?;
        if !left.shape().same(&number) || !right.shape().same(&number) {
            return Err(LangError::at(ErrorKind::IncompatibleTypes, &self.loc));
        }
        let shape = if arithmetic {
            shape_float()
        } else {
            shape_boolean()
        };
        Ok(BinaryOpEx { shape, left, right, op: self.op.clone(), loc: self.loc.clone() }.wrap())
    }
}

impl CallEx {
    pub fn check(&self, scope: &mut Scope, expected: &Shape) -> (r: Result<Expression, LangError>)
        requires
            old(scope).wf(),
        ensures
            checked(*final(scope), r, check_call_spec(old(scope)@, self@)),
        decreases self, 1nat,
    {
        let unknown = shape_unknown();
        let func = check(scope, &self.func, &unknown)?;
        let shape = func.shape();
        proof {
            shape.lemma_model();
        }
        match shape {
            Shape::SimpleFunctionShape { args: expected_args, result } => {
                if self.args.len() != expected_args.len() {
                    return Err(LangError::at(ErrorKind::WrongArity, &self.loc));
                }
                let args = check_args(&self.args, &expected_args, &self.loc, scope)?;
                Ok(CallEx { shape: *result, loc: self.loc.clone(), func, args }.wrap())
            },
            _ => Err(LangError::at(ErrorKind::NotAFunction, &self.loc)),
        }
    }
}

impl IfEx {
    pub fn check(&self, scope: &mut Scope, expected: &Shape) -> (r: Result<Expression, LangError>)
        requires
            old(scope).wf(),
        ensures
            checked(*final(scope), r, check_if_spec(old(scope)@, self@)),
        decreases self, 1nat,
    {
        let truth = shape_boolean();
        let unknown = shape_unknown();
        let condition = check(scope, &self.condition, &truth)?;
        let _ = verify(&truth, &condition.shape(), &self.loc)?;
        let then_block = check(scope, &self.then_block, &unknown)?;
        let else_block = check(scope, &self.else_block, &unknown)?;
        let shape = verify(&then_block.shape(), &else_block.shape(), &self.loc)?;
        Ok(IfEx { shape, loc: self.loc.clone(), condition, then_block, else_block }.wrap())
    }
}

impl VariableEx {
    pub fn check(&self, scope: &mut Scope, expected: &Shape) -> (r: Result<Expression, LangError>)
        requires
            old(scope).wf(),
        ensures
            checked(*final(scope), r, check_spec(old(scope)@, self@, expected@)),
    {
        let shape = scope.check_scope(&self.id, &self.loc)?;
        Ok(VariableEx { shape, loc: self.loc.clone(), id: self.id.clone() }.wrap())
    }
}

impl StringLiteralEx {
    pub fn check(&self, scope: &mut Scope, expected: &Shape) -> (r: Result<Expression, LangError>)
        requires
            old(scope).wf(),
        ensures
            checked(*final(scope), r, check_spec(old(scope)@, self@, expected@)),
    {
        Ok(
            StringLiteralEx {
                shape: shape_string(),
                loc: self.loc.clone(),
                value: self.value.clone(),
            }.wrap(),
        )
    }
}

impl NumberLiteralEx {
    pub fn check(&self, scope: &mut Scope, expected: &Shape) -> (r: Result<Expression, LangError>)
        requires
            old(scope).wf(),
        ensures
            checked(*final(scope), r, check_spec(old(scope)@, self@, expected@)),
    {
        Ok(NumberLiteralEx { shape: shape_float(), loc: self.loc.clone(), value: self.value }.wrap())
    }
}

/// Checks an expression against `expected`: hands back the expression with
/// every shape in it found out, or the first error.
pub fn check(scope: &mut Scope, ex: &Expression, expected: &Shape) -> (r: Result<
    Expression,
    LangError,
>)
    requires
        old(scope).wf(),
    ensures
        checked(*final(scope), r, check_spec(old(scope)@, ex@, expected@)),
    decreases ex, 2nat,
{
    proof {
        ex.lemma_model();
    }
    match ex {
        Expression::NoOp(loc) => Ok(Expression::NoOp(loc.clone())),
        Expression::FunctionDeclaration(ex) => ex.check(scope, expected),
        Expression::Block(ex) => ex.check(scope, expected),
        Expression::Assignment(ex) => ex.check(scope, expected),
        Expression::BinaryOp(ex) => ex.check(scope, expected),
        Expression::Call(ex) => ex.check(scope, expected),
        Expression::If(ex) => ex.check(scope, expected),
        Expression::Variable(ex) => ex.check(scope, expected),
        Expression::StringLiteral(ex) => ex.check(scope, expected),
        Expression::NumberLiteral(ex) => ex.check(scope, expected),
        Expression::BooleanLiteral(loc, value) => Ok(Expression::BooleanLiteral(loc.clone(), *value)),
    }
}

/// Checks a module: enters every function into the static scope, then checks
/// each. In what comes back every shape is found out, and every function
/// knows what it captures and whether it calls itself.
pub fn check_module(module: Module) -> (r: Result<Module, LangError>)
    ensures
        match r {
            Ok(m) => check_module_spec(module@) == Ok::<_, ErrorView>(m@),
            Err(e) => check_module_spec(module@) == Err::<ModuleView, _>(e@),
        },
{
    let ghost m = module@;
    let mut scope = Scope::new();
    let count = module.functions.len();
    let mut i: usize = 0;
    while i < count
        invariant
            i <= count,
            count == module.functions@.len(),
            m == module@,
            scope.wf(),
            scope@.function_stack == Seq::<Seq<Table<ShapeView>>>::empty(),
            scope@.closures_stack == Seq::<Seq<ParameterView>>::empty(),
            prefill_spec(m.functions, i as int) == Ok::<_, ErrorView>(scope@.static_scope),
        decreases count - i,
    {
        let dec = &module.functions[i];
        proof {
            assert(m.functions[i as int] == dec.ex@);
        }
        match scope.pre_fill_module_function(dec.ex.id.clone(), dec.ex.shape(), &dec.ex.loc) {
            Ok(_) => {},
            Err(e) => {
                proof {
                    lemma_prefill_error(m.functions, i + 1, count as int);
                }
                return Err(e);
            },
        }
        i += 1;
    }
    let ghost start = scope@;
    let unknown = shape_unknown();
    let mut functions: Vec<FunctionDeclaration> = Vec::new();
    assert(views(functions@) =~= Seq::<ExprView>::empty());
    let mut i: usize = 0;
    while i < count
        invariant
            i <= count,
            count == module.functions@.len(),
            m == module@,
            unknown@ == ShapeView::Unknown,
            start == (ScopeView {
                static_scope: prefill_spec(m.functions, count as int)->Ok_0,
                ..ScopeView::empty()
            }),
            prefill_spec(m.functions, count as int) is Ok,
            scope.wf(),
            check_functions_spec(start, m.functions, i as int) == Ok::<_, ErrorView>(
                (views(functions@), scope@),
            ),
        decreases count - i,
    {
        let dec = &module.functions[i];
        proof {
            assert(m.functions[i as int] == dec.ex@);
        }
        let ghost before = functions@;
        match check_function(&dec.ex, &mut scope, &unknown, false) {
            Ok(Expression::FunctionDeclaration(content)) => {
                let ghost seen = Expression::FunctionDeclaration(content);
                proof {
                    seen.lemma_model();
                }
                let declaration = FunctionDeclaration { visibility: dec.visibility, ex: *content };
                functions.push(declaration);
                proof {
                    lemma_views_push(before, declaration);
                }
            },
            Ok(_) => {
                return Err(LangError::at(ErrorKind::NotADeclaration, &dec.ex.loc));
            },
            Err(e) => {
                proof {
                    lemma_check_functions_error(start, m.functions, i + 1, count as int);
                }
                return Err(e);
            },
        }
        i += 1;
    }
    Ok(Module { package: module.package, name: module.name, functions })
}

} // verus!
