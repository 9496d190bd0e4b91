use vstd::prelude::*;
use crate::ast::{
    AssignmentEx,
    BinaryOpEx,
    BlockEx,
    CallEx,
    ExprView,
    Expression,
    FunctionContext,
    FunctionContextView,
    FunctionDeclaration,
    FunctionDeclarationEx,
    IfEx,
    Location,
    LocationView,
    Module,
    ModuleView,
    NumberLiteralEx,
    Parameter,
    ParameterView,
    StringLiteralEx,
    VariableEx,
    Visibility,
};
use crate::error::{ErrorKind, ErrorView, LangError, error_at};
use crate::lexer::{Token, TokenKind, TokenView};
use crate::shapes::{
    BaseShapeKind,
    Shape,
    ShapeView,
    base,
    function_of,
    shape_float,
    shape_function,
    shape_named,
    shape_string,
    shape_unknown,
};
use crate::support::{lemma_views_push, text_is, views};

verus! {

/// What a step of the parser gives: what it read and the place of the next
/// token, or an error.
pub type Parsed<T> = Result<(T, int), ErrorView>;

/// Whether the token at `i` is written `text` and is neither a string nor
/// the end of the source.
pub open spec fn is_literal(ts: Seq<TokenView>, i: int, text: Seq<char>) -> bool {
    0 <= i < ts.len() && ts[i].kind != TokenKind::String && ts[i].kind != TokenKind::EOF
        && ts[i].value == text
}

/// Whether the token at `i` is of kind `kind`.
pub open spec fn is_kind(ts: Seq<TokenView>, i: int, kind: TokenKind) -> bool {
    0 <= i < ts.len() && ts[i].kind == kind
}

/// The place of the token at `i`; behind the last token, the place of the
/// last.
pub open spec fn place_of(ts: Seq<TokenView>, i: int) -> LocationView {
    if 0 <= i < ts.len() {
        ts[i].location
    } else if ts.len() > 0 {
        ts.last().location
    } else {
        LocationView { src: Seq::empty(), x: 0, y: 0 }
    }
}

/// The error that the token at `i` is not what the grammar wants.
pub open spec fn unexpected(ts: Seq<TokenView>, i: int) -> ErrorView {
    error_at(ErrorKind::UnexpectedToken, place_of(ts, i))
}

/// The error that the token at `i` is not what the grammar wants, as the
/// result of a step.
pub open spec fn refuse<T>(ts: Seq<TokenView>, i: int) -> Parsed<T> {
    Err(unexpected(ts, i))
}

/// Whether a step that started at `i` went on to `next` inside the tokens.
pub open spec fn advanced(ts: Seq<TokenView>, i: int, next: int) -> bool {
    i < next <= ts.len()
}

/// A type: a function type in curly brackets, its arguments before an arrow
/// and its result behind; or a name, with arguments in square brackets where
/// it is generic.
pub open spec fn type_spec(ts: Seq<TokenView>, i: int) -> Parsed<ShapeView>
    decreases ts.len() - i, 0nat,
{
    if is_literal(ts, i, "{"@) {
        if is_literal(ts, i + 1, "->"@) {
            match type_spec(ts, i + 2) {
                Err(error) => Err(error),
                Ok((result, k)) => if is_literal(ts, k, "}"@) {
                    Ok((function_of(Seq::empty(), result), k + 1))
                } else {
                    refuse(ts, k)
                },
            }
        } else {
            match types_spec(ts, i + 1) {
                Err(error) => Err(error),
                Ok((args, k)) => if !is_literal(ts, k, "->"@) || k <= i {
                    refuse(ts, k)
                } else {
                    match type_spec(ts, k + 1) {
                        Err(error) => Err(error),
                        Ok((result, m)) => if is_literal(ts, m, "}"@) {
                            Ok((function_of(args, result), m + 1))
                        } else {
                            refuse(ts, m)
                        },
                    }
                },
            }
        }
    } else if is_kind(ts, i, TokenKind::Id) {
        let named = ShapeView::Named { name: ts[i].value };
        if is_literal(ts, i + 1, "["@) {
            match types_spec(ts, i + 2) {
                Err(error) => Err(error),
                Ok((args, k)) => if is_literal(ts, k, "]"@) {
                    Ok((ShapeView::Generic { base: Box::new(named), args }, k + 1))
                } else {
                    refuse(ts, k)
                },
            }
        } else {
            Ok((named, i + 1))
        }
    } else {
        refuse(ts, i)
    }
}

/// One type or more, with commas between them.
pub open spec fn types_spec(ts: Seq<TokenView>, i: int) -> Parsed<Seq<ShapeView>>
    decreases ts.len() - i, 2nat,
{
    match type_spec(ts, i) {
        Err(error) => Err(error),
        Ok((first, k)) => if advanced(ts, i, k) {
            more_types_spec(ts, k, seq![first])
        } else {
            refuse(ts, k)
        },
    }
}

/// The types behind `done`, each behind a comma.
pub open spec fn more_types_spec(ts: Seq<TokenView>, i: int, done: Seq<ShapeView>) -> Parsed<
    Seq<ShapeView>,
>
    decreases ts.len() - i, 1nat,
{
    if is_literal(ts, i, ","@) {
        match type_spec(ts, i + 1) {
            Err(error) => Err(error),
            Ok((next, k)) => if advanced(ts, i, k) {
                more_types_spec(ts, k, done.push(next))
            } else {
                refuse(ts, k)
            },
        }
    } else {
        Ok((done, i))
    }
}

/// A parameter: a name, and its type behind a colon. The type may be left
/// out where `open` says so; the shape is unknown then.
pub open spec fn param_spec(ts: Seq<TokenView>, i: int, open: bool) -> Parsed<ParameterView> {
    if !is_kind(ts, i, TokenKind::Id) {
        refuse(ts, i)
    } else if is_literal(ts, i + 1, ":"@) {
        match type_spec(ts, i + 2) {
            Err(error) => Err(error),
            Ok((shape, k)) => Ok((ParameterView { id: ts[i].value, shape }, k)),
        }
    } else if open {
        Ok((ParameterView { id: ts[i].value, shape: ShapeView::Unknown }, i + 1))
    } else {
        refuse(ts, i + 1)
    }
}

/// The parameters behind `done`, each behind a comma.
pub open spec fn more_params_spec(
    ts: Seq<TokenView>,
    i: int,
    open: bool,
    done: Seq<ParameterView>,
) -> Parsed<Seq<ParameterView>>
    decreases ts.len() - i,
{
    if is_literal(ts, i, ","@) {
        match param_spec(ts, i + 1, open) {
            Err(error) => Err(error),
            Ok((next, k)) => if advanced(ts, i, k) {
                more_params_spec(ts, k, open, done.push(next))
            } else {
                refuse(ts, k)
            },
        }
    } else {
        Ok((done, i))
    }
}

/// One parameter or more, with commas between them.
pub open spec fn params_spec(ts: Seq<TokenView>, i: int, open: bool) -> Parsed<Seq<ParameterView>> {
    match param_spec(ts, i, open) {
        Err(error) => Err(error),
        Ok((first, k)) => more_params_spec(ts, k, open, seq![first]),
    }
}

/// Whether the braces that were opened before `i` hold a lambda: a double
/// arrow comes before they close, outside any braces inside them.
pub open spec fn lambda_ahead(ts: Seq<TokenView>, i: int, opens: nat) -> bool
    decreases ts.len() - i,
{
    if i < 0 || i >= ts.len() {
        false
    } else if is_literal(ts, i, "{"@) {
        lambda_ahead(ts, i + 1, opens + 1)
    } else if is_literal(ts, i, "}"@) {
        if opens <= 1 {
            false
        } else {
            lambda_ahead(ts, i + 1, (opens - 1) as nat)
        }
    } else if is_literal(ts, i, "=>"@) {
        opens == 1
    } else {
        lambda_ahead(ts, i + 1, opens)
    }
}

/// The operators of a level of binding, from the loosest, level 0, to the
/// tightest, level 3.
pub open spec fn operator_of(level: nat, op: Seq<char>) -> bool {
    if level == 0 {
        op == "=="@ || op == "!="@
    } else if level == 1 {
        op == "<"@ || op == ">"@ || op == "<="@ || op == ">="@
    } else if level == 2 {
        op == "+"@ || op == "-"@
    } else {
        op == "*"@ || op == "/"@
    }
}

/// Whether the token at `i` is an operator of `level`.
pub open spec fn is_operator(ts: Seq<TokenView>, i: int, level: nat) -> bool {
    is_kind(ts, i, TokenKind::Symbol) && operator_of(level, ts[i].value)
}

/// What a function is before it is checked.
pub open spec fn plain_context(is_local: bool, is_lambda: bool) -> FunctionContextView {
    FunctionContextView { is_lambda, is_local, is_recursive: false, closures: Seq::empty() }
}

/// A term: a name, a truth value, a string or a number.
pub open spec fn term_spec(ts: Seq<TokenView>, i: int) -> Parsed<ExprView> {
    if is_kind(ts, i, TokenKind::Id) {
        let loc = ts[i].location;
        if ts[i].value == "true"@ {
            Ok((ExprView::BooleanLiteral { loc, value: true }, i + 1))
        } else if ts[i].value == "false"@ {
            Ok((ExprView::BooleanLiteral { loc, value: false }, i + 1))
        } else {
            Ok((ExprView::Variable { shape: ShapeView::Unknown, loc, id: ts[i].value }, i + 1))
        }
    } else if is_kind(ts, i, TokenKind::String) {
        Ok(
            (
                ExprView::StringLiteral {
                    shape: base(BaseShapeKind::String),
                    loc: ts[i].location,
                    value: ts[i].value,
                },
                i + 1,
            ),
        )
    } else if is_kind(ts, i, TokenKind::Number) {
        Ok(
            (
                ExprView::NumberLiteral {
                    shape: base(BaseShapeKind::Float),
                    loc: ts[i].location,
                    value: ts[i].bits,
                },
                i + 1,
            ),
        )
    } else {
        refuse(ts, i)
    }
}

/// A statement: an assignment, a function, or an expression; a semicolon
/// may follow.
pub open spec fn statement_spec(ts: Seq<TokenView>, i: int) -> Parsed<ExprView>
    decreases ts.len() - i, 40nat,
{
    let inner = if is_literal(ts, i, "let"@) {
        assignment_spec(ts, i)
    } else if is_literal(ts, i, "fun"@) {
        function_spec(ts, i, true)
    } else {
        expression_spec(ts, i)
    };
    match inner {
        Err(error) => Err(error),
        Ok((e, k)) => if is_literal(ts, k, ";"@) {
            Ok((e, k + 1))
        } else {
            Ok((e, k))
        },
    }
}

/// The statements behind `done`, up to the closing brace.
pub open spec fn statements_spec(ts: Seq<TokenView>, i: int, done: Seq<ExprView>) -> Parsed<
    Seq<ExprView>,
>
    decreases ts.len() - i, 41nat,
{
    if is_literal(ts, i, "}"@) {
        Ok((done, i + 1))
    } else if i < 0 || i >= ts.len() || ts[i].kind == TokenKind::EOF {
        refuse(ts, i)
    } else {
        match statement_spec(ts, i) {
            Err(error) => Err(error),
            Ok((next, k)) => if advanced(ts, i, k) {
                statements_spec(ts, k, done.push(next))
            } else {
                refuse(ts, k)
            },
        }
    }
}

/// A function: `fun`, its name, its parameters in round brackets, its result
/// behind a colon, and its body behind an equals sign.
pub open spec fn function_spec(ts: Seq<TokenView>, i: int, is_local: bool) -> Parsed<ExprView>
    decreases ts.len() - i, 39nat,
{
    if !is_literal(ts, i, "fun"@) {
        refuse(ts, i)
    } else if !is_kind(ts, i + 1, TokenKind::Id) {
        refuse(ts, i + 1)
    } else if !is_literal(ts, i + 2, "("@) {
        refuse(ts, i + 2)
    } else {
        let listed = if is_literal(ts, i + 3, ")"@) {
            Ok((Seq::empty(), i + 4))
        } else {
            match params_spec(ts, i + 3, false) {
                Err(error) => Err(error),
                Ok((params, k)) => if is_literal(ts, k, ")"@) {
                    Ok((params, k + 1))
                } else {
                    refuse(ts, k)
                },
            }
        };
        match listed {
            Err(error) => Err(error),
            Ok((params, k)) => if !is_literal(ts, k, ":"@) {
                refuse(ts, k)
            } else {
                match type_spec(ts, k + 1) {
                    Err(error) => Err(error),
                    Ok((result, m)) => if !is_literal(ts, m, "="@) || m <= i {
                        refuse(ts, m)
                    } else {
                        match expression_spec(ts, m + 1) {
                            Err(error) => Err(error),
                            Ok((body, n)) => Ok(
                                (
                                    ExprView::FunctionDeclaration {
                                        result,
                                        loc: ts[i].location,
                                        id: ts[i + 1].value,
                                        params,
                                        body: Box::new(body),
                                        context: plain_context(is_local, false),
                                    },
                                    n,
                                ),
                            ),
                        }
                    },
                }
            },
        }
    }
}

/// An assignment: `let`, a name, its type behind a colon where one is given,
/// and the value behind an equals sign.
pub open spec fn assignment_spec(ts: Seq<TokenView>, i: int) -> Parsed<ExprView>
    decreases ts.len() - i, 39nat,
{
    if !is_literal(ts, i, "let"@) {
        refuse(ts, i)
    } else if !is_kind(ts, i + 1, TokenKind::Id) {
        refuse(ts, i + 1)
    } else {
        let typed = if is_literal(ts, i + 2, ":"@) {
            type_spec(ts, i + 3)
        } else {
            Ok((ShapeView::Unknown, i + 2))
        };
        match typed {
            Err(error) => Err(error),
            Ok((shape, k)) => if !is_literal(ts, k, "="@) || k <= i {
                refuse(ts, k)
            } else {
                match expression_spec(ts, k + 1) {
                    Err(error) => Err(error),
                    Ok((body, n)) => Ok(
                        (
                            ExprView::Assignment {
                                shape,
                                loc: ts[i].location,
                                id: ts[i + 1].value,
                                body: Box::new(body),
                            },
                            n,
                        ),
                    ),
                }
            },
        }
    }
}

/// An expression: a condition, or operations.
pub open spec fn expression_spec(ts: Seq<TokenView>, i: int) -> Parsed<ExprView>
    decreases ts.len() - i, 30nat,
{
    if is_literal(ts, i, "if"@) {
        if_spec(ts, i)
    } else {
        ops_spec(ts, i, 0)
    }
}

/// A condition: `if`, the test in round brackets, the expression for true,
/// `else`, and the expression for false.
pub open spec fn if_spec(ts: Seq<TokenView>, i: int) -> Parsed<ExprView>
    decreases ts.len() - i, 29nat,
{
    if !is_literal(ts, i, "if"@) {
        refuse(ts, i)
    } else if !is_literal(ts, i + 1, "("@) {
        refuse(ts, i + 1)
    } else {
        match expression_spec(ts, i + 2) {
            Err(error) => Err(error),
            Ok((condition, k)) => if !is_literal(ts, k, ")"@) || k <= i {
                refuse(ts, k)
            } else {
                match expression_spec(ts, k + 1) {
                    Err(error) => Err(error),
                    Ok((then_block, m)) => if !is_literal(ts, m, "else"@) || m <= i {
                        refuse(ts, m)
                    } else {
                        match expression_spec(ts, m + 1) {
                            Err(error) => Err(error),
                            Ok((else_block, n)) => Ok(
                                (
                                    ExprView::If {
                                        shape: ShapeView::Unknown,
                                        loc: ts[i].location,
                                        condition: Box::new(condition),
                                        then_block: Box::new(then_block),
                                        else_block: Box::new(else_block),
                                    },
                                    n,
                                ),
                            ),
                        }
                    },
                }
            },
        }
    }
}

/// The operand of an operation of `level`: an operation of the next level,
/// or a call behind the tightest.
pub open spec fn operand_spec(ts: Seq<TokenView>, i: int, level: nat) -> Parsed<ExprView>
    decreases ts.len() - i, (if level >= 3 {
            20nat
        } else {
            (26 - 2 * level) as nat
        }),
{
    if level >= 3 {
        call_spec(ts, i)
    } else {
        ops_spec(ts, i, level + 1)
    }
}

/// Operations of `level`: operands with operators of the level between
/// them, grouped from the left.
pub open spec fn ops_spec(ts: Seq<TokenView>, i: int, level: nat) -> Parsed<ExprView>
    decreases ts.len() - i, (if level >= 3 {
            21nat
        } else {
            (27 - 2 * level) as nat
        }),
{
    match operand_spec(ts, i, level) {
        Err(error) => Err(error),
        Ok((left, k)) => if advanced(ts, i, k) {
            more_ops_spec(ts, k, level, left)
        } else {
            refuse(ts, k)
        },
    }
}

/// The operations of `level` behind the operand `left`.
pub open spec fn more_ops_spec(ts: Seq<TokenView>, i: int, level: nat, left: ExprView) -> Parsed<
    ExprView,
>
    decreases ts.len() - i, 13nat,
{
    if is_operator(ts, i, level) {
        match operand_spec(ts, i + 1, level) {
            Err(error) => Err(error),
            Ok((right, k)) => if advanced(ts, i, k) {
                more_ops_spec(
                    ts,
                    k,
                    level,
                    ExprView::BinaryOp {
                        shape: ShapeView::Unknown,
                        loc: ts[i].location,
                        op: ts[i].value,
                        left: Box::new(left),
                        right: Box::new(right),
                    },
                )
            } else {
                refuse(ts, k)
            },
        }
    } else {
        Ok((left, i))
    }
}

/// A call: a callee, and behind it arguments in round brackets as often as
/// they follow.
pub open spec fn call_spec(ts: Seq<TokenView>, i: int) -> Parsed<ExprView>
    decreases ts.len() - i, 10nat,
{
    match block_spec(ts, i) {
        Err(error) => Err(error),
        Ok((func, k)) => if advanced(ts, i, k) {
            more_calls_spec(ts, k, func)
        } else {
            refuse(ts, k)
        },
    }
}

/// The calls of `func` that follow it: each its arguments in round
/// brackets.
pub open spec fn more_calls_spec(ts: Seq<TokenView>, i: int, func: ExprView) -> Parsed<ExprView>
    decreases ts.len() - i, 9nat,
{
    if is_literal(ts, i, "("@) {
        let listed = if is_literal(ts, i + 1, ")"@) {
            Ok((Seq::empty(), i + 2))
        } else {
            match expressions_spec(ts, i + 1) {
                Err(error) => Err(error),
                Ok((args, k)) => if is_literal(ts, k, ")"@) {
                    Ok((args, k + 1))
                } else {
                    refuse(ts, k)
                },
            }
        };
        match listed {
            Err(error) => Err(error),
            Ok((args, k)) => if advanced(ts, i, k) {
                more_calls_spec(
                    ts,
                    k,
                    ExprView::Call {
                        shape: ShapeView::Unknown,
                        loc: func.loc(),
                        func: Box::new(func),
                        args,
                    },
                )
            } else {
                refuse(ts, k)
            },
        }
    } else {
        Ok((func, i))
    }
}

/// One expression or more, with commas between them.
pub open spec fn expressions_spec(ts: Seq<TokenView>, i: int) -> Parsed<Seq<ExprView>>
    decreases ts.len() - i, 42nat,
{
    match expression_spec(ts, i) {
        Err(error) => Err(error),
        Ok((first, k)) => if advanced(ts, i, k) {
            more_expressions_spec(ts, k, seq![first])
        } else {
            refuse(ts, k)
        },
    }
}

/// The expressions behind `done`, each behind a comma.
pub open spec fn more_expressions_spec(ts: Seq<TokenView>, i: int, done: Seq<ExprView>) -> Parsed<
    Seq<ExprView>,
>
    decreases ts.len() - i, 0nat,
{
    if is_literal(ts, i, ","@) {
        match expression_spec(ts, i + 1) {
            Err(error) => Err(error),
            Ok((next, k)) => if advanced(ts, i, k) {
                more_expressions_spec(ts, k, done.push(next))
            } else {
                refuse(ts, k)
            },
        }
    } else {
        Ok((done, i))
    }
}

/// What stands in braces or brackets, or a term: a lambda or a block in
/// curly brackets, an expression in round brackets.
pub open spec fn block_spec(ts: Seq<TokenView>, i: int) -> Parsed<ExprView>
    decreases ts.len() - i, 8nat,
{
    if is_literal(ts, i, "{"@) {
        if lambda_ahead(ts, i + 1, 1) {
            lambda_spec(ts, i + 1)
        } else {
            match statements_spec(ts, i + 1, Seq::empty()) {
                Err(error) => Err(error),
                Ok((items, k)) => Ok(
                    (ExprView::Block { shape: ShapeView::Unknown, loc: ts[i].location, items }, k),
                ),
            }
        }
    } else if is_literal(ts, i, "("@) {
        match expression_spec(ts, i + 1) {
            Err(error) => Err(error),
            Ok((inner, k)) => if is_literal(ts, k, ")"@) {
                Ok((inner, k + 1))
            } else {
                refuse(ts, k)
            },
        }
    } else {
        term_spec(ts, i)
    }
}

/// A lambda, behind its opening brace: its parameters, its result behind an
/// arrow where one is given, and behind a double arrow its statements up to
/// the closing brace.
pub open spec fn lambda_spec(ts: Seq<TokenView>, i: int) -> Parsed<ExprView>
    decreases ts.len() - i, 43nat,
{
    let listed = if is_literal(ts, i, "->"@) || is_literal(ts, i, "=>"@) {
        Ok((Seq::empty(), i))
    } else {
        params_spec(ts, i, true)
    };
    match listed {
        Err(error) => Err(error),
        Ok((params, k)) => {
            let typed = if is_literal(ts, k, "->"@) {
                type_spec(ts, k + 1)
            } else {
                Ok((ShapeView::Unknown, k))
            };
            match typed {
                Err(error) => Err(error),
                Ok((result, m)) => if !is_literal(ts, m, "=>"@) || m < i {
                    refuse(ts, m)
                } else {
                    match statements_spec(ts, m + 1, Seq::empty()) {
                        Err(error) => Err(error),
                        Ok((items, n)) => Ok(
                            (
                                ExprView::FunctionDeclaration {
                                    result,
                                    loc: place_of(ts, i - 1),
                                    id: "<anon>"@,
                                    params,
                                    body: Box::new(
                                        ExprView::Block {
                                            shape: ShapeView::Unknown,
                                            loc: ts[m].location,
                                            items,
                                        },
                                    ),
                                    context: plain_context(true, true),
                                },
                                n,
                            ),
                        ),
                    }
                },
            }
        },
    }
}

/// The functions of a module behind `done`, up to the end of the source:
/// each may be marked for export.
pub open spec fn functions_spec(ts: Seq<TokenView>, i: int, done: Seq<ExprView>) -> Result<
    Seq<ExprView>,
    ErrorView,
>
    decreases ts.len() - i,
{
    if i < 0 || i >= ts.len() || ts[i].kind == TokenKind::EOF {
        Ok(done)
    } else {
        let start = if is_literal(ts, i, "export"@) {
            i + 1
        } else {
            i
        };
        match function_spec(ts, start, false) {
            Err(error) => Err(error),
            Ok((f, k)) => if advanced(ts, i, k) {
                functions_spec(ts, k, done.push(f))
            } else {
                Err(unexpected(ts, k))
            },
        }
    }
}

/// The module `module` of `package` that the tokens spell.
pub open spec fn parse_spec(ts: Seq<TokenView>, package: Seq<char>, module: Seq<char>) -> Result<
    ModuleView,
    ErrorView,
> {
    match functions_spec(ts, 0, Seq::empty()) {
        Err(error) => Err(error),
        Ok(functions) => Ok(ModuleView { package, name: module, functions }),
    }
}

/// The parser of the tokens of one source.
#[derive(Debug)]
pub struct Parser {
    pub tokens: Vec<Token>,
}

impl View for Parser {
    type V = Seq<TokenView>;

    open spec fn view(&self) -> Seq<TokenView> {
        views(self.tokens@)
    }
}

/// What a step that started at `start` gave: what the grammar says, and a
/// place behind the start and inside the tokens.
pub open spec fn stepped<T: View>(
    ts: Seq<TokenView>,
    start: usize,
    r: Result<(T, usize), LangError>,
    model: Parsed<T::V>,
) -> bool {
    match r {
        Ok((x, next)) => model == Ok::<_, ErrorView>((x@, next as int)) && start < next <= ts.len(),
        Err(error) => model == Err::<(T::V, int), _>(error@),
    }
}

/// The same of a step that gave several things.
pub open spec fn stepped_all<T: View>(
    ts: Seq<TokenView>,
    start: usize,
    r: Result<(Vec<T>, usize), LangError>,
    model: Parsed<Seq<T::V>>,
) -> bool {
    match r {
        Ok((items, next)) => model == Ok::<_, ErrorView>((views(items@), next as int)) && start
            < next <= ts.len(),
        Err(error) => model == Err::<(Seq<T::V>, int), _>(error@),
    }
}

impl Parser {
    /// The tokens are few enough to be counted beyond their end.
    pub open spec fn wf(&self) -> bool {
        self.tokens@.len() + 8 < usize::MAX
    }

    /// Whether the token at `i` is written `text` and is neither a string
    /// nor the end of the source.
    pub fn check_literal(&self, i: usize, text: &str) -> (r: bool)
        ensures
            r == is_literal(self@, i as int, text@),
    {
        if i >= self.tokens.len() {
            return false;
        }
        let token = &self.tokens[i];
        match token.kind {
            TokenKind::String => false,
            TokenKind::EOF => false,
            _ => text_is(&token.value, text),
        }
    }

    /// Whether the token at `i` is of kind `kind`.
    pub fn check_kind(&self, i: usize, kind: TokenKind) -> (r: bool)
        ensures
            r == is_kind(self@, i as int, kind),
    {
        i < self.tokens.len() && self.tokens[i].kind == kind
    }

    /// The place of the token at `i`.
    pub fn peek(&self, i: usize) -> (r: Location)
        ensures
            r@ == place_of(self@, i as int),
    {
        let len = self.tokens.len();
        if i < len {
            self.tokens[i].location.clone()
        } else if len > 0 {
            self.tokens[len - 1].location.clone()
        } else {
            Location { src: String::new(), x: 0, y: 0 }
        }
    }

    /// The failure that the token at `i` is not what the grammar wants.
    pub fn fail<T>(&self, i: usize) -> (r: Result<T, LangError>)
        ensures
            match r {
                Err(e) => e@ == unexpected(self@, i as int),
                Ok(_) => false,
            },
    {
        Err(LangError::at(ErrorKind::UnexpectedToken, &self.peek(i)))
    }

    /// Fails unless the token at `i` is written `text`.
    pub fn expect_literal(&self, i: usize, text: &str) -> (r: Result<(), LangError>)
        ensures
            match r {
                Ok(_) => is_literal(self@, i as int, text@),
                Err(e) => !is_literal(self@, i as int, text@) && e@ == unexpected(self@, i as int),
            },
    {
        if self.check_literal(i, text) {
            Ok(())
        } else {
            self.fail(i)
        }
    }

    /// Fails unless the token at `i` is of kind `kind`.
    pub fn expect_kind(&self, i: usize, kind: TokenKind) -> (r: Result<(), LangError>)
        ensures
            match r {
                Ok(_) => is_kind(self@, i as int, kind),
                Err(e) => !is_kind(self@, i as int, kind) && e@ == unexpected(self@, i as int),
            },
    {
        if self.check_kind(i, kind) {
            Ok(())
        } else {
            self.fail(i)
        }
    }

    pub fn parse_type(&self, i: usize) -> (r: Result<(Shape, usize), LangError>)
        requires
            self.wf(),
        ensures
            stepped(self@, i, r, type_spec(self@, i as int)),
        decreases self.tokens@.len() - i, 2nat,
    {
        self.parse_type_function(i)
    }

    pub fn parse_type_function(&self, i: usize) -> (r: Result<(Shape, usize), LangError>)
        requires
            self.wf(),
        ensures
            stepped(self@, i, r, type_spec(self@, i as int)),
        decreases self.tokens@.len() - i, 1nat,
    {
        if self.check_literal(i, "{") {
            if self.check_literal(i + 1, "->") {
                let (result, k) = self.parse_type(i + 2)?;
                self.expect_literal(k, "}")?;
                let none: Vec<Shape> = Vec::new();
                assert(views(none@) =~= Seq::<ShapeView>::empty());
                Ok((shape_function(none, result), k + 1))
            } else {
                let (args, k) = self.parse_types(i + 1)?;
                self.expect_literal(k, "->")?;
                let (result, m) = self.parse_type(k + 1)?;
                self.expect_literal(m, "}")?;
                Ok((shape_function(args, result), m + 1))
            }
        } else {
            self.parse_type_generic(i)
        }
    }

    pub fn parse_type_generic(&self, i: usize) -> (r: Result<(Shape, usize), LangError>)
        requires
            self.wf(),
            !is_literal(self@, i as int, "{"@),
        ensures
            stepped(self@, i, r, type_spec(self@, i as int)),
        decreases self.tokens@.len() - i, 0nat,
    {
        let base = self.parse_type_term(i)?;
        if self.check_literal(i + 1, "[") {
            let (args, k) = self.parse_types(i + 2)?;
            self.expect_literal(k, "]")?;
            let shape = Shape::GenericShape { base: Box::new(base), args };
            proof {
                shape.lemma_model();
            }
            Ok((shape, k + 1))
        } else {
            Ok((base, i + 1))
        }
    }

    pub fn parse_type_term(&self, i: usize) -> (r: Result<Shape, LangError>)
        ensures
            match r {
                Ok(shape) => is_kind(self@, i as int, TokenKind::Id) && shape@ == (ShapeView::Named {
                    name: self@[i as int].value,
                }),
                Err(e) => !is_kind(self@, i as int, TokenKind::Id) && e@ == unexpected(
                    self@,
                    i as int,
                ),
            },
    {
        self.expect_kind(i, TokenKind::Id)?;
        Ok(shape_named(self.tokens[i].value.clone()))
    }

    /// One type or more, with commas between them.
    pub fn parse_types(&self, i: usize) -> (r: Result<(Vec<Shape>, usize), LangError>)
        requires
            self.wf(),
        ensures
            stepped_all(self@, i, r, types_spec(self@, i as int)),
        decreases self.tokens@.len() - i, 5nat,
    {
        let (first, start) = self.parse_type(i)?;
        let mut done: Vec<Shape> = Vec::new();
        done.push(first);
        assert(views(done@) =~= seq![first@]);
        let mut k = start;
        while self.check_literal(k, ",")
            invariant
                self.wf(),
                i < k <= self.tokens@.len(),
                more_types_spec(self@, k as int, views(done@)) == types_spec(self@, i as int),
            decreases self.tokens@.len() - k,
        {
            let ghost before = done@;
            match self.parse_type(k + 1) {
                Ok((next, after)) => {
                    done.push(next);
                    proof {
                        lemma_views_push(before, next);
                    }
                    k = after;
                },
                Err(e) => {
                    return Err(e);
                },
            }
        }
        Ok((done, k))
    }

    /// A parameter: a name and its type; the type may be left out where
    /// `open` says so.
    pub fn parse_parameter(&self, i: usize, open: bool) -> (r: Result<(Parameter, usize), LangError>)
        requires
            self.wf(),
        ensures
            stepped(self@, i, r, param_spec(self@, i as int, open)),
    {
        self.expect_kind(i, TokenKind::Id)?;
        let id = self.tokens[i].value.clone();
        if self.check_literal(i + 1, ":") {
            let (shape, k) = self.parse_type(i + 2)?;
            Ok((Parameter { id, shape }, k))
        } else if open {
            Ok((Parameter { id, shape: shape_unknown() }, i + 1))
        } else {
            self.fail(i + 1)
        }
    }

    /// One parameter or more, with commas between them.
    pub fn parse_parameters(&self, i: usize, open: bool) -> (r: Result<
        (Vec<Parameter>, usize),
        LangError,
    >)
        requires
            self.wf(),
        ensures
            stepped_all(self@, i, r, params_spec(self@, i as int, open)),
    {
        let (first, start) = self.parse_parameter(i, open)?;
        let mut done: Vec<Parameter> = Vec::new();
        done.push(first);
        assert(views(done@) =~= seq![first@]);
        let mut k = start;
        while self.check_literal(k, ",")
            invariant
                self.wf(),
                i < k <= self.tokens@.len(),
                more_params_spec(self@, k as int, open, views(done@)) == params_spec(
                    self@,
                    i as int,
                    open,
                ),
            decreases self.tokens@.len() - k,
        {
            let ghost before = done@;
            match self.parse_parameter(k + 1, open) {
                Ok((next, after)) => {
                    done.push(next);
                    proof {
                        lemma_views_push(before, next);
                    }
                    k = after;
                },
                Err(e) => {
                    return Err(e);
                },
            }
        }
        Ok((done, k))
    }

    /// Looks ahead, behind an opening brace, for the double arrow that makes
    /// the braces a lambda.
    pub fn check_is_lambda(&self, i: usize) -> (r: bool)
        requires
            self.wf(),
        ensures
            r == lambda_ahead(self@, i as int, 1),
    {
        let mut index = i;
        let mut opens: usize = 1;
        while index < self.tokens.len()
            invariant
                self.wf(),
                i <= index,
                1 <= opens <= index - i + 1,
                lambda_ahead(self@, index as int, opens as nat) == lambda_ahead(self@, i as int, 1),
            decreases self.tokens@.len() - index,
        {
            if self.check_literal(index, "{") {
                opens = opens + 1;
            } else if self.check_literal(index, "}") {
                if opens <= 1 {
                    return false;
                }
                opens = opens - 1;
            } else if self.check_literal(index, "=>") {
                return opens == 1;
            }
            index = index + 1;
        }
        false
    }

    pub fn parse_term(&self, i: usize) -> (r: Result<(Expression, usize), LangError>)
        requires
            self.wf(),
        ensures
            stepped(self@, i, r, term_spec(self@, i as int)),
    {
        if self.check_kind(i, TokenKind::Id) {
            let term = &self.tokens[i];
            let loc = term.location.clone();
            if text_is(&term.value, "true") {
                Ok((Expression::BooleanLiteral(loc, true), i + 1))
            } else if text_is(&term.value, "false") {
                Ok((Expression::BooleanLiteral(loc, false), i + 1))
            } else {
                Ok((VariableEx { id: term.value.clone(), shape: shape_unknown(), loc }.wrap(), i + 1))
            }
        } else if self.check_kind(i, TokenKind::String) {
            let term = &self.tokens[i];
            Ok(
                (
                    StringLiteralEx {
                        shape: shape_string(),
                        loc: term.location.clone(),
                        value: term.value.clone(),
                    }.wrap(),
                    i + 1,
                ),
            )
        } else if self.check_kind(i, TokenKind::Number) {
            let term = &self.tokens[i];
            Ok(
                (
                    NumberLiteralEx {
                        shape: shape_float(),
                        loc: term.location.clone(),
                        value: term.bits,
                    }.wrap(),
                    i + 1,
                ),
            )
        } else {
            self.fail(i)
        }
    }

    pub fn parse_statement(&self, i: usize) -> (r: Result<(Expression, usize), LangError>)
        requires
            self.wf(),
        ensures
            stepped(self@, i, r, statement_spec(self@, i as int)),
        decreases self.tokens@.len() - i, 50nat,
    {
        let (statement, k) = if self.check_literal(i, "let") {
            self.parse_assignment(i)?
        } else if self.check_literal(i, "fun") {
            let (function, k) = self.parse_function(i, true)?;
            (function.wrap(), k)
        } else {
            self.parse_expression(i)?
        };
        if self.check_literal(k, ";") {
            Ok((statement, k + 1))
        } else {
            Ok((statement, k))
        }
    }

    /// The statements up to the closing brace.
    pub fn parse_statements(&self, i: usize) -> (r: Result<(Vec<Expression>, usize), LangError>)
        requires
            self.wf(),
            i <= self.tokens@.len(),
        ensures
            match r {
                Ok((items, next)) => statements_spec(self@, i as int, Seq::empty()) == Ok::<
                    _,
                    ErrorView,
                >((views(items@), next as int)) && i < next <= self.tokens@.len(),
                Err(e) => statements_spec(self@, i as int, Seq::empty()) == Err::<
                    (Seq<ExprView>, int),
                    _,
                >(e@),
            },
        decreases self.tokens@.len() - i, 51nat,
    {
        let mut body: Vec<Expression> = Vec::new();
        assert(views(body@) =~= Seq::<ExprView>::empty());
        let mut k = i;
        loop
            invariant
                self.wf(),
                i <= k <= self.tokens@.len(),
                statements_spec(self@, k as int, views(body@)) == statements_spec(
                    self@,
                    i as int,
                    Seq::empty(),
                ),
            decreases self.tokens@.len() - k,
        {
            if self.check_literal(k, "}") {
                return Ok((body, k + 1));
            }
            if k >= self.tokens.len() || self.check_kind(k, TokenKind::EOF) {
                return self.fail(k);
            }
            let ghost before = body@;
            match self.parse_statement(k) {
                Ok((next, after)) => {
                    body.push(next);
                    proof {
                        lemma_views_push(before, next);
                    }
                    k = after;
                },
                Err(e) => {
                    return Err(e);
                },
            }
        }
    }

    pub fn parse_function(&self, i: usize, is_local: bool) -> (r: Result<
        (FunctionDeclarationEx, usize),
        LangError,
    >)
        requires
            self.wf(),
        ensures
            stepped(self@, i, r, function_spec(self@, i as int, is_local)),
        decreases self.tokens@.len() - i, 49nat,
    {
        self.expect_literal(i, "fun")?;
        self.expect_kind(i + 1, TokenKind::Id)?;
        self.expect_literal(i + 2, "(")?;
        let loc = self.tokens[i].location.clone();
        let id = self.tokens[i + 1].value.clone();
        let (args, k) = if self.check_literal(i + 3, ")") {
            let none: Vec<Parameter> = Vec::new();
            assert(views(none@) =~= Seq::<ParameterView>::empty());
            (none, i + 4)
        } else {
            let (args, k) = self.parse_parameters(i + 3, false)?;
            self.expect_literal(k, ")")?;
            (args, k + 1)
        };
        self.expect_literal(k, ":")?;
        let (result, m) = self.parse_type(k + 1)?;
        self.expect_literal(m, "=")?;
        let (body, n) = self.parse_expression(m + 1)?;
        Ok(
            (
                FunctionDeclarationEx {
                    result,
                    loc,
                    id,
                    args,
                    body,
                    context: FunctionContext::new(is_local, false),
                },
                n,
            ),
        )
    }

    pub fn parse_assignment(&self, i: usize) -> (r: Result<(Expression, usize), LangError>)
        requires
            self.wf(),
        ensures
            stepped(self@, i, r, assignment_spec(self@, i as int)),
        decreases self.tokens@.len() - i, 49nat,
    {
        self.expect_literal(i, "let")?;
        self.expect_kind(i + 1, TokenKind::Id)?;
        let loc = self.tokens[i].location.clone();
        let id = self.tokens[i + 1].value.clone();
        let (shape, k) = if self.check_literal(i + 2, ":") {
            self.parse_type(i + 3)?
        } else {
            (shape_unknown(), i + 2)
        };
        self.expect_literal(k, "=")?;
        let (body, n) = self.parse_expression(k + 1)?;
        Ok((AssignmentEx { shape, loc, id, body }.wrap(), n))
    }

    pub fn parse_expression(&self, i: usize) -> (r: Result<(Expression, usize), LangError>)
        requires
            self.wf(),
        ensures
            stepped(self@, i, r, expression_spec(self@, i as int)),
        decreases self.tokens@.len() - i, 40nat,
    {
        if self.check_literal(i, "if") {
            self.parse_if(i)
        } else {
            self.parse_ops(i, 0)
        }
    }

    /// A condition with its two arms.
    pub fn parse_if(&self, i: usize) -> (r: Result<(Expression, usize), LangError>)
        requires
            self.wf(),
        ensures
            stepped(self@, i, r, if_spec(self@, i as int)),
        decreases self.tokens@.len() - i, 39nat,
    {
        self.expect_literal(i, "if")?;
        self.expect_literal(i + 1, "(")?;
        let loc = self.tokens[i].location.clone();
        let (condition, k) = self.parse_expression(i + 2)?;
        self.expect_literal(k, ")")?;
        let (then_block, m) = self.parse_expression(k + 1)?;
        self.expect_literal(m, "else")?;
        let (else_block, n) = self.parse_expression(m + 1)?;
        Ok((IfEx { shape: shape_unknown(), loc, condition, then_block, else_block }.wrap(), n))
    }

    /// Whether the token at `i` is an operator of `level`.
    fn check_operator(&self, i: usize, level: u8) -> (r: bool)
        ensures
            r == is_operator(self@, i as int, level as nat),
    {
        if !self.check_kind(i, TokenKind::Symbol) {
            return false;
        }
        let op = &self.tokens[i].value;
        if level == 0 {
            text_is(op, "==") || text_is(op, "!=")
        } else if level == 1 {
            text_is(op, "<") || text_is(op, ">") || text_is(op, "<=") || text_is(op, ">=")
        } else if level == 2 {
            text_is(op, "+") || text_is(op, "-")
        } else {
            text_is(op, "*") || text_is(op, "/")
        }
    }

    /// The operand of an operation of `level`.
    fn parse_operand(&self, i: usize, level: u8) -> (r: Result<(Expression, usize), LangError>)
        requires
            self.wf(),
            level <= 3,
        ensures
            stepped(self@, i, r, operand_spec(self@, i as int, level as nat)),
        decreases self.tokens@.len() - i, (30 - 3 * level) as nat,
    {
        if level >= 3 {
            self.parse_call(i)
        } else {
            self.parse_ops(i, level + 1)
        }
    }

    /// Operations of `level`, grouped from the left.
    pub fn parse_ops(&self, i: usize, level: u8) -> (r: Result<(Expression, usize), LangError>)
        requires
            self.wf(),
            level <= 3,
        ensures
            stepped(self@, i, r, ops_spec(self@, i as int, level as nat)),
        decreases self.tokens@.len() - i, (32 - 3 * level) as nat,
    {
        self.parse_binary_op(i, level)
    }

    /// Operands of `level` with the operators of the level between them.
    pub fn parse_binary_op(&self, i: usize, level: u8) -> (r: Result<(Expression, usize), LangError>)
        requires
            self.wf(),
            level <= 3,
        ensures
            stepped(self@, i, r, ops_spec(self@, i as int, level as nat)),
        decreases self.tokens@.len() - i, (31 - 3 * level) as nat,
    {
        let (first, start) = self.parse_operand(i, level)?;
        let mut left = first;
        let mut k = start;
        while self.check_operator(k, level)
            invariant
                self.wf(),
                level <= 3,
                i < k <= self.tokens@.len(),
                more_ops_spec(self@, k as int, level as nat, left@) == ops_spec(
                    self@,
                    i as int,
                    level as nat,
                ),
            decreases self.tokens@.len() - k,
        {
            let op = self.tokens[k].value.clone();
            let loc = self.tokens[k].location.clone();
            match self.parse_operand(k + 1, level) {
                Ok((right, after)) => {
                    left = BinaryOpEx { shape: shape_unknown(), loc, left, right, op }.wrap();
                    k = after;
                },
                Err(e) => {
                    return Err(e);
                },
            }
        }
        Ok((left, k))
    }

    /// One expression or more, with commas between them.
    pub fn parse_expressions(&self, i: usize) -> (r: Result<(Vec<Expression>, usize), LangError>)
        requires
            self.wf(),
        ensures
            stepped_all(self@, i, r, expressions_spec(self@, i as int)),
        decreases self.tokens@.len() - i, 52nat,
    {
        let (first, start) = self.parse_expression(i)?;
        let mut done: Vec<Expression> = Vec::new();
        done.push(first);
        assert(views(done@) =~= seq![first@]);
        let mut k = start;
        while self.check_literal(k, ",")
            invariant
                self.wf(),
                i < k <= self.tokens@.len(),
                more_expressions_spec(self@, k as int, views(done@)) == expressions_spec(
                    self@,
                    i as int,
                ),
            decreases self.tokens@.len() - k,
        {
            let ghost before = done@;
            match self.parse_expression(k + 1) {
                Ok((next, after)) => {
                    done.push(next);
                    proof {
                        lemma_views_push(before, next);
                    }
                    k = after;
                },
                Err(e) => {
                    return Err(e);
                },
            }
        }
        Ok((done, k))
    }

    pub fn parse_call(&self, i: usize) -> (r: Result<(Expression, usize), LangError>)
        requires
            self.wf(),
        ensures
            stepped(self@, i, r, call_spec(self@, i as int)),
        decreases self.tokens@.len() - i, 10nat,
    {
        let (callee, start) = self.parse_block(i)?;
        let mut func = callee;
        let mut k = start;
        while self.check_literal(k, "(")
            invariant
                self.wf(),
                i < k <= self.tokens@.len(),
                more_calls_spec(self@, k as int, func@) == call_spec(self@, i as int),
            decreases self.tokens@.len() - k,
        {
            let (args, after) = if self.check_literal(k + 1, ")") {
                let none: Vec<Expression> = Vec::new();
                assert(views(none@) =~= Seq::<ExprView>::empty());
                (none, k + 2)
            } else {
                match self.parse_expressions(k + 1) {
                    Ok((args, end)) => {
                        match self.expect_literal(end, ")") {
                            Ok(_) => (args, end + 1),
                            Err(e) => {
                                return Err(e);
                            },
                        }
                    },
                    Err(e) => {
                        return Err(e);
                    },
                }
            };
            let loc = func.loc().clone();
            func = CallEx { shape: shape_unknown(), loc, func, args }.wrap();
            k = after;
        }
        Ok((func, k))
    }

    pub fn parse_block(&self, i: usize) -> (r: Result<(Expression, usize), LangError>)
        requires
            self.wf(),
        ensures
            stepped(self@, i, r, block_spec(self@, i as int)),
        decreases self.tokens@.len() - i, 8nat,
    {
        if self.check_literal(i, "{") {
            if self.check_is_lambda(i + 1) {
                self.parse_lambda(i + 1)
            } else {
                let loc = self.tokens[i].location.clone();
                let (body, k) = self.parse_statements(i + 1)?;
                Ok((BlockEx { loc, shape: shape_unknown(), body }.wrap(), k))
            }
        } else if self.check_literal(i, "(") {
            let (inner, k) = self.parse_expression(i + 1)?;
            self.expect_literal(k, ")")?;
            Ok((inner, k + 1))
        } else {
            self.parse_term(i)
        }
    }

    /// A lambda, behind its opening brace.
    pub fn parse_lambda(&self, i: usize) -> (r: Result<(Expression, usize), LangError>)
        requires
            self.wf(),
            1 <= i <= self.tokens@.len(),
        ensures
            match r {
                Ok((x, next)) => lambda_spec(self@, i as int) == Ok::<_, ErrorView>(
                    (x@, next as int),
                ) && i <= next <= self.tokens@.len() && i - 1 < next,
                Err(error) => lambda_spec(self@, i as int) == Err::<(ExprView, int), _>(error@),
            },
        decreases self.tokens@.len() - i, 53nat,
    {
        let loc = self.peek(i - 1);
        let (args, k) = if self.check_literal(i, "->") || self.check_literal(i, "=>") {
            let none: Vec<Parameter> = Vec::new();
            assert(views(none@) =~= Seq::<ParameterView>::empty());
            (none, i)
        } else {
            self.parse_parameters(i, true)?
        };
        let (result, m) = if self.check_literal(k, "->") {
            self.parse_type(k + 1)?
        } else {
            (shape_unknown(), k)
        };
        self.expect_literal(m, "=>")?;
        let block_loc = self.tokens[m].location.clone();
        let (body, n) = self.parse_statements(m + 1)?;
        let block = BlockEx { loc: block_loc, shape: shape_unknown(), body }.wrap();
        Ok(
            (
                FunctionDeclarationEx {
                    result,
                    loc,
                    id: String::from_str("<anon>"),
                    args,
                    body: block,
                    context: FunctionContext::new(true, true),
                }.wrap(),
                n,
            ),
        )
    }

    /// The functions of the module, up to the end of the source.
    pub fn parse_module(&self, package: &str, name: &str) -> (r: Result<Module, LangError>)
        requires
            self.wf(),
        ensures
            match r {
                Ok(m) => parse_spec(self@, package@, name@) == Ok::<_, ErrorView>(m@),
                Err(e) => parse_spec(self@, package@, name@) == Err::<ModuleView, _>(e@),
            },
    {
        let mut functions: Vec<FunctionDeclaration> = Vec::new();
        assert(views(functions@) =~= Seq::<ExprView>::empty());
        let mut k: usize = 0;
        loop
            invariant
                self.wf(),
                k <= self.tokens@.len(),
                functions_spec(self@, k as int, views(functions@)) == functions_spec(
                    self@,
                    0,
                    Seq::empty(),
                ),
            decreases self.tokens@.len() - k,
        {
            if k >= self.tokens.len() || self.check_kind(k, TokenKind::EOF) {
                return Ok(
                    Module {
                        package: String::from_str(package),
                        name: String::from_str(name),
                        functions,
                    },
                );
            }
            let exported = self.check_literal(k, "export");
            let start = if exported {
                k + 1
            } else {
                k
            };
            let ghost before = functions@;
            match self.parse_function(start, false) {
                Ok((ex, after)) => {
                    let visibility = if exported {
                        Visibility::Public
                    } else {
                        Visibility::Private
                    };
                    let declaration = FunctionDeclaration { visibility, ex };
                    functions.push(declaration);
                    proof {
                        lemma_views_push(before, declaration);
                    }
                    k = after;
                },
                Err(e) => {
                    return Err(e);
                },
            }
        }
    }
}

/// Parses the tokens of a source as the module `module` of `package`. Every
/// number token must hold the bits of the number that it spells.
pub fn parse(tokens: Vec<Token>, package: &str, module: &str) -> (r: Result<Module, LangError>)
    requires
        tokens@.len() + 8 < usize::MAX,
    ensures
        match r {
            Ok(m) => parse_spec(views(tokens@), package@, module@) == Ok::<_, ErrorView>(m@),
            Err(e) => parse_spec(views(tokens@), package@, module@) == Err::<ModuleView, _>(e@),
        },
{
    let parser = Parser { tokens };
    parser.parse_module(package, module)
}

} // verus!
