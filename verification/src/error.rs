use vstd::prelude::*;
use crate::ast::{Location, LocationView};

verus! {

/// What went wrong, by stage.
#[derive(Debug, Clone, Copy, PartialEq, Eq, Structural)]
pub enum ErrorKind {
    /// A variable is used that no scope declares.
    UndeclaredVariable,
    /// A name is declared twice in one block.
    Redeclaration,
    /// Two shapes that must agree do not.
    IncompatibleTypes,
    /// A call hands over another number of arguments than the function takes.
    WrongArity,
    /// Something that is no function is called.
    NotAFunction,
    /// Neither side says what the shape is.
    UnknownShape,
    /// A shape is named that the language does not know.
    UnresolvedNamedShape,
    /// A module holds something at top level that is no function.
    NotADeclaration,
    /// The source holds a character that starts no token.
    UnexpectedCharacter,
    /// A string literal has no closing quote.
    UnterminatedString,
    /// The source holds a token where the grammar wants another.
    UnexpectedToken,
    /// A name is lowered that no scope knows.
    UnknownName,
    /// A function has more locals than a slot number can count.
    TooManyLocals,
    /// A module has more constants than a constant number can count.
    TooManyConstants,
    /// A call has more arguments than an argument count can hold.
    TooManyArguments,
    /// A branch is longer than a jump can span.
    BlockTooLong,
    /// An instruction needs more values than the stack holds.
    StackUnderflow,
    /// An instruction names a constant or a local that is not there.
    BadIndex,
    /// A jump leaves the function's body at its start.
    BadJump,
    /// A branch finds something on the stack that is neither true nor false.
    BranchOnNonBoolean,
    /// A call names a function that the application does not hold.
    UnknownFunction,
    /// A called value or reference is no function.
    CallOfNonFunction,
    /// A native function got another number of arguments than it takes.
    NativeArity,
    /// A native function got a value of the wrong kind.
    NativeDomain,
    /// The body ended without a return.
    MissingReturn,
    /// An error instruction was reached.
    ErrorInstruction,
    /// An answer came that no native function was waiting for.
    UnexpectedAnswer,
    /// The machine was asked to go on with no function in progress.
    NoActivation,
}

/// An error of any stage: its kind and, where the stage knows it, the place in
/// the source.
#[derive(Debug)]
pub struct LangError {
    pub kind: ErrorKind,
    pub loc: Option<Location>,
}

/// The mathematical value of a [`LangError`].
pub struct ErrorView {
    pub kind: ErrorKind,
    pub loc: Option<LocationView>,
}

impl View for LangError {
    type V = ErrorView;

    open spec fn view(&self) -> ErrorView {
        ErrorView {
            kind: self.kind,
            loc: match self.loc {
                Some(l) => Some(l@),
                None => None,
            },
        }
    }
}

/// The error of kind `kind` at `loc`.
pub open spec fn error_at(kind: ErrorKind, loc: LocationView) -> ErrorView {
    ErrorView { kind, loc: Some(loc) }
}

/// The error of kind `kind` that has no place in the source.
pub open spec fn error_of(kind: ErrorKind) -> ErrorView {
    ErrorView { kind, loc: None }
}

impl LangError {
    pub fn at(kind: ErrorKind, loc: &Location) -> (r: LangError)
        ensures
            r@ == error_at(kind, loc@),
    {
        LangError { kind, loc: Some(loc.clone()) }
    }

    pub fn of(kind: ErrorKind) -> (r: LangError)
        ensures
            r@ == error_of(kind),
    {
        LangError { kind, loc: None }
    }
}

/// What a message says of an error of kind `kind`.
pub open spec fn kind_text(kind: ErrorKind) -> Seq<char> {
    match kind {
        ErrorKind::UndeclaredVariable => "Undeclared variable"@,
        ErrorKind::Redeclaration => "Redeclaration of variable"@,
        ErrorKind::IncompatibleTypes => "Incompatible types"@,
        ErrorKind::WrongArity => "Incorrect number of arguments"@,
        ErrorKind::NotAFunction => "Attempt to call non-function"@,
        ErrorKind::UnknownShape => "Unknown shape"@,
        ErrorKind::UnresolvedNamedShape => "Could not find type"@,
        ErrorKind::NotADeclaration => "Not a function declaration"@,
        ErrorKind::UnexpectedCharacter => "Unexpected character"@,
        ErrorKind::UnterminatedString => "Unterminated string"@,
        ErrorKind::UnexpectedToken => "Unexpected token"@,
        ErrorKind::UnknownName => "Name not found in scope"@,
        ErrorKind::TooManyLocals => "Too many locals"@,
        ErrorKind::TooManyConstants => "Too many constants"@,
        ErrorKind::TooManyArguments => "Too many arguments"@,
        ErrorKind::BlockTooLong => "Branch too long"@,
        ErrorKind::StackUnderflow => "Invalid bytecode. Not enough values on the stack"@,
        ErrorKind::BadIndex => "Invalid bytecode. Invalid constant or local"@,
        ErrorKind::BadJump => "Invalid bytecode. Jump before the start"@,
        ErrorKind::BranchOnNonBoolean => "Invalid bytecode. Attempt to Branch on non boolean"@,
        ErrorKind::UnknownFunction => "FunctionRef lookup failed"@,
        ErrorKind::CallOfNonFunction => "Invalid bytecode. Call of what is no function"@,
        ErrorKind::NativeArity => "Wrong number of arguments for a native function"@,
        ErrorKind::NativeDomain => "Wrong kind of argument for a native function"@,
        ErrorKind::MissingReturn => "Overflowed function body"@,
        ErrorKind::ErrorInstruction => "Error instruction reached"@,
        ErrorKind::UnexpectedAnswer => "No native function is waiting for an answer"@,
        ErrorKind::NoActivation => "No function in progress"@,
    }
}

impl ErrorKind {
    /// What a message says of an error of this kind.
    pub fn text(&self) -> (r: &'static str)
        ensures
            r@ == kind_text(*self),
    {
        match self {
            ErrorKind::UndeclaredVariable => "Undeclared variable",
            ErrorKind::Redeclaration => "Redeclaration of variable",
            ErrorKind::IncompatibleTypes => "Incompatible types",
            ErrorKind::WrongArity => "Incorrect number of arguments",
            ErrorKind::NotAFunction => "Attempt to call non-function",
            ErrorKind::UnknownShape => "Unknown shape",
            ErrorKind::UnresolvedNamedShape => "Could not find type",
            ErrorKind::NotADeclaration => "Not a function declaration",
            ErrorKind::UnexpectedCharacter => "Unexpected character",
            ErrorKind::UnterminatedString => "Unterminated string",
            ErrorKind::UnexpectedToken => "Unexpected token",
            ErrorKind::UnknownName => "Name not found in scope",
            ErrorKind::TooManyLocals => "Too many locals",
            ErrorKind::TooManyConstants => "Too many constants",
            ErrorKind::TooManyArguments => "Too many arguments",
            ErrorKind::BlockTooLong => "Branch too long",
            ErrorKind::StackUnderflow => "Invalid bytecode. Not enough values on the stack",
            ErrorKind::BadIndex => "Invalid bytecode. Invalid constant or local",
            ErrorKind::BadJump => "Invalid bytecode. Jump before the start",
            ErrorKind::BranchOnNonBoolean => "Invalid bytecode. Attempt to Branch on non boolean",
            ErrorKind::UnknownFunction => "FunctionRef lookup failed",
            ErrorKind::CallOfNonFunction => "Invalid bytecode. Call of what is no function",
            ErrorKind::NativeArity => "Wrong number of arguments for a native function",
            ErrorKind::NativeDomain => "Wrong kind of argument for a native function",
            ErrorKind::MissingReturn => "Overflowed function body",
            ErrorKind::ErrorInstruction => "Error instruction reached",
            ErrorKind::UnexpectedAnswer => "No native function is waiting for an answer",
            ErrorKind::NoActivation => "No function in progress",
        }
    }
}

impl ErrorView {
    /// The message of the error: what its kind says, and its place where it
    /// has one.
    pub open spec fn message(self) -> Seq<char> {
        match self.loc {
            Some(loc) => kind_text(self.kind) + " "@ + loc.pretty(),
            None => kind_text(self.kind),
        }
    }
}

impl LangError {
    /// The message of the error, for a reader.
    pub fn message(&self) -> (r: String)
        ensures
            r@ == self@.message(),
    {
        let mut out = String::from_str(self.kind.text());
        match &self.loc {
            Some(loc) => {
                out.append(" ");
                let place = loc.pretty();
                out.append(place.as_str());
            },
            None => {},
        }
        out
    }
}

} // verus!
