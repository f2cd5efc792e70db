//! The syntax tree of programs, and the rule for identifiers.
use vstd::prelude::*;
use crate::ops::{AssignOp, BoolLogic, CompOp, Op, UnaryOp};
use crate::text::owned;
use crate::value::{Type, Value};

verus! {

/// Expressions.
#[derive(Debug, PartialEq)]
pub enum Expr {
    Literal(Value),
    /// A number as written in the source; the host reads it.
    Numeral(String),
    Reference(String),
    /// A closure: its parameters and the index of its body in the code table.
    FuncDef(Vec<(String, Type)>, usize),
    Typecast(Box<Expr>, Box<Expr>),
    TypeOf(Box<Expr>),
    CallFunc(Box<Expr>, Vec<Expr>),
    Array(Vec<Expr>),
    Index(Box<Expr>, Box<Expr>),
    BinOp(Op, Box<Expr>, Box<Expr>),
    Comparison(CompOp, Box<Expr>, Box<Expr>),
    BoolChain(BoolLogic, Box<Expr>, Box<Expr>),
    UnOp(UnaryOp, Box<Expr>),
    Length(Box<Expr>),
    ToUpper(Box<Expr>),
    ToLower(Box<Expr>),
}

/// A condition and the statements it guards.
#[derive(Debug, PartialEq)]
pub struct IfStatement {
    pub e: Expr,
    pub s: Vec<Statement>,
}

/// Statements.
#[derive(Debug, PartialEq)]
pub enum Statement {
    DeclareVar(String, Expr),
    MutateVar(AssignOp, String, Expr),
    Expression(Expr),
    Return(Expr),
    /// The `if` branch, the `elif` branches, the `else` branch.
    If(IfStatement, Option<Vec<IfStatement>>, Option<Vec<Statement>>),
    While(Expr, Vec<Statement>),
    Print(Vec<Expr>),
    Println(Vec<Expr>),
    Exit(Expr),
}

/// One line typed at the prompt.
#[derive(Debug, PartialEq)]
pub enum Line {
    Statement(Statement),
    Expression(Expr),
}

/// The bodies of all closures of a program, which closures name by index.
#[derive(Debug, PartialEq)]
pub struct Code {
    pub bodies: Vec<Vec<Statement>>,
}

/// Words that cannot name a variable.
pub open spec fn reserved(s: Seq<char>) -> bool {
    ||| s == "let"@
    ||| s == "func"@
    ||| s == "return"@
    ||| s == "if"@
    ||| s == "elif"@
    ||| s == "else"@
    ||| s == "while"@
    ||| s == "print"@
    ||| s == "println"@
    ||| s == "exit"@
    ||| s == "true"@
    ||| s == "false"@
    ||| s == "typeof"@
    ||| s == "length"@
    ||| s == "to_upper"@
    ||| s == "to_lower"@
    ||| s == "as"@
    ||| s == "and"@
    ||| s == "or"@
    ||| s == "num"@
    ||| s == "string"@
    ||| s == "bool"@
    ||| s == "array"@
    ||| s == "type"@
    ||| s == "void"@
}

pub open spec fn is_letter(c: char) -> bool {
    ('a' <= c && c <= 'z') || ('A' <= c && c <= 'Z') || c == '_'
}

pub open spec fn is_digit(c: char) -> bool {
    '0' <= c && c <= '9'
}

/// Whether `s` may name a variable: a letter or `_`, then letters, digits
/// and `_`, and not a reserved word.
pub open spec fn valid_ident(s: Seq<char>) -> bool {
    &&& s.len() > 0
    &&& is_letter(s[0])
    &&& forall|i: int| 1 <= i < s.len() ==> is_letter(#[trigger] s[i]) || is_digit(s[i])
    &&& !reserved(s)
}

pub fn letter(c: char) -> (r: bool)
    ensures
        r == is_letter(c),
{
    ('a' <= c && c <= 'z') || ('A' <= c && c <= 'Z') || c == '_'
}

pub fn digit(c: char) -> (r: bool)
    ensures
        r == is_digit(c),
{
    '0' <= c && c <= '9'
}

/// Whether `s` is a reserved word.
pub fn is_reserved(s: &str) -> (r: bool)
    ensures
        r == reserved(s@),
{
    let t = String::from_str(s);
    t == owned("let")
        || t == owned("func")
        || t == owned("return")
        || t == owned("if")
        || t == owned("elif")
        || t == owned("else")
        || t == owned("while")
        || t == owned("print")
        || t == owned("println")
        || t == owned("exit")
        || t == owned("true")
        || t == owned("false")
        || t == owned("typeof")
        || t == owned("length")
        || t == owned("to_upper")
        || t == owned("to_lower")
        || t == owned("as")
        || t == owned("and")
        || t == owned("or")
        || t == owned("num")
        || t == owned("string")
        || t == owned("bool")
        || t == owned("array")
        || t == owned("type")
        || t == owned("void")
}

/// Whether `s` may name a variable.
pub fn validate_ident(s: &String) -> (r: bool)
    ensures
        r == valid_ident(s@),
{
    let x = s.as_str();
    let n = x.unicode_len();
    if n == 0 {
        return false;
    }
    if !letter(x.get_char(0)) {
        return false;
    }
    let mut i: usize = 1;
    while i < n
        invariant
            n == s@.len(),
            x@ == s@,
            1 <= i <= n,
            forall|j: int| 1 <= j < i ==> is_letter(#[trigger] s@[j]) || is_digit(s@[j]),
        decreases n - i,
    {
        let c = x.get_char(i);
        if !letter(c) && !digit(c) {
            return false;
        }
        i += 1;
    }
    !is_reserved(x)
}

} // verus!
