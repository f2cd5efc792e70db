//! Evaluation errors and their models.
use vstd::prelude::*;
use crate::value::{Type, Tag, Value, Val};

verus! {

/// What can go wrong while a program runs.
#[derive(Debug, PartialEq)]
pub enum EvalError {
    UndefinedVariable(String),
    UndeclaredVariable(String),
    InvalidIdentifier(String),
    InvalidOperation(Type, Type),
    InvalidComparison(Type, Type),
    InvalidBooleanOperands(Type, Type),
    CannotNegate(Type),
    InvalidIndexType(Type),
    NotIndexable(Type),
    /// The index (a number) and the length of the array.
    IndexOutOfBounds(u64, usize),
    InvalidTypecast(Type, Type),
    ExpectedType(Type),
    ParseError(String),
    /// The number of parameters, then the number of arguments.
    WrongArgCount(usize, usize),
    /// The declared type, then the type of the argument.
    WrongArgType(Type, Type),
    NotCallable(Type),
    ExpectedBoolean(Type),
    InvalidCompoundAssign(Type),
    NoLength(Type),
    WrongType(Type),
    /// A closure whose body is not in the code table.
    UnknownBody(usize),
    /// The step budget ran out.
    OutOfFuel,
    /// Not an error: the program ends with this exit status.
    Exit(i32),
    /// The program asked to exit with a value that is not a number; it ends
    /// with status 0.
    ExitNotNumber(Type),
}

/// Model of an `EvalError`.
pub enum Fault {
    UndefinedVariable(Seq<char>),
    UndeclaredVariable(Seq<char>),
    InvalidIdentifier(Seq<char>),
    InvalidOperation(Tag, Tag),
    InvalidComparison(Tag, Tag),
    InvalidBooleanOperands(Tag, Tag),
    CannotNegate(Tag),
    InvalidIndexType(Tag),
    NotIndexable(Tag),
    IndexOutOfBounds(u64, nat),
    InvalidTypecast(Tag, Tag),
    ExpectedType(Tag),
    ParseError(Seq<char>),
    WrongArgCount(nat, nat),
    WrongArgType(Tag, Tag),
    NotCallable(Tag),
    ExpectedBoolean(Tag),
    InvalidCompoundAssign(Tag),
    NoLength(Tag),
    WrongType(Tag),
    UnknownBody(nat),
    OutOfFuel,
    Exit(i32),
    ExitNotNumber(Tag),
}

impl EvalError {
    pub open spec fn view(self) -> Fault {
        match self {
            EvalError::UndefinedVariable(s) => Fault::UndefinedVariable(s@),
            EvalError::UndeclaredVariable(s) => Fault::UndeclaredVariable(s@),
            EvalError::InvalidIdentifier(s) => Fault::InvalidIdentifier(s@),
            EvalError::InvalidOperation(a, b) => Fault::InvalidOperation(a@, b@),
            EvalError::InvalidComparison(a, b) => Fault::InvalidComparison(a@, b@),
            EvalError::InvalidBooleanOperands(a, b) => Fault::InvalidBooleanOperands(a@, b@),
            EvalError::CannotNegate(a) => Fault::CannotNegate(a@),
            EvalError::InvalidIndexType(a) => Fault::InvalidIndexType(a@),
            EvalError::NotIndexable(a) => Fault::NotIndexable(a@),
            EvalError::IndexOutOfBounds(i, n) => Fault::IndexOutOfBounds(i, n as nat),
            EvalError::InvalidTypecast(a, b) => Fault::InvalidTypecast(a@, b@),
            EvalError::ExpectedType(a) => Fault::ExpectedType(a@),
            EvalError::ParseError(s) => Fault::ParseError(s@),
            EvalError::WrongArgCount(a, b) => Fault::WrongArgCount(a as nat, b as nat),
            EvalError::WrongArgType(a, b) => Fault::WrongArgType(a@, b@),
            EvalError::NotCallable(a) => Fault::NotCallable(a@),
            EvalError::ExpectedBoolean(a) => Fault::ExpectedBoolean(a@),
            EvalError::InvalidCompoundAssign(a) => Fault::InvalidCompoundAssign(a@),
            EvalError::NoLength(a) => Fault::NoLength(a@),
            EvalError::WrongType(a) => Fault::WrongType(a@),
            EvalError::UnknownBody(n) => Fault::UnknownBody(n as nat),
            EvalError::OutOfFuel => Fault::OutOfFuel,
            EvalError::Exit(c) => Fault::Exit(c),
            EvalError::ExitNotNumber(t) => Fault::ExitNotNumber(t@),
        }
    }
}

/// Model of the outcome of evaluating an expression.
pub open spec fn outcome(r: Result<Value, EvalError>) -> Result<Val, Fault> {
    match r {
        Ok(v) => Ok(v@),
        Err(e) => Err(e@),
    }
}

} // verus!
