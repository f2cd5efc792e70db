//! Operators, the arithmetic that gives numbers their meaning, and the rules
//! of each operator on values.
use vstd::prelude::*;
use crate::error::{EvalError, Fault, outcome};
use crate::value::{Type, Tag, Value, Val, tag_of};

verus! {

/// Binary arithmetic operators.
#[derive(Debug, PartialEq)]
pub enum Op {
    Add,
    Sub,
    Mul,
    Div,
    Mod,
    Exp,
}

/// Assignment operators.
#[derive(Debug, PartialEq)]
pub enum AssignOp {
    Equals,
    AddEq,
    SubEq,
    MulEq,
    DivEq,
    ModEq,
    ExpEq,
}

/// Comparison operators.
#[derive(Debug, PartialEq)]
pub enum CompOp {
    Equal,
    NotEq,
    Gt,
    Ge,
    Lt,
    Le,
}

/// Boolean connectives.
#[derive(Debug, PartialEq)]
pub enum BoolLogic {
    And,
    Or,
}

/// Unary operators.
#[derive(Debug, PartialEq)]
pub enum UnaryOp {
    Not,
}

/// What a program runs against: its numbers, held as 64 bits that an
/// implementation gives their meaning (IEEE-754 doubles in the interpreter
/// program), and the place where printed text goes.
pub trait Host {
    /// `a op b`.
    fn apply(&self, op: &Op, a: u64, b: u64) -> u64;

    /// Whether `a op b` holds.
    fn compare(&self, op: &CompOp, a: u64, b: u64) -> bool;

    /// The canonical decimal text of `a`.
    fn render(&self, a: u64) -> String;

    /// The number that `text` writes, if it is a number.
    fn parse(&self, text: &str) -> Option<u64>;

    /// `a` truncated to an integer, if that is not negative.
    fn index(&self, a: u64) -> Option<usize>;

    /// The number `n`.
    fn count(&self, n: usize) -> u64;

    /// `a` truncated to a process exit status.
    fn status(&self, a: u64) -> i32;

    /// Writes `text` where the program's printed output goes.
    fn write(&mut self, text: &str);
}

/// The arithmetic operator of a compound assignment.
pub open spec fn compound_op(op: AssignOp) -> Option<Op> {
    match op {
        AssignOp::Equals => None,
        AssignOp::AddEq => Some(Op::Add),
        AssignOp::SubEq => Some(Op::Sub),
        AssignOp::MulEq => Some(Op::Mul),
        AssignOp::DivEq => Some(Op::Div),
        AssignOp::ModEq => Some(Op::Mod),
        AssignOp::ExpEq => Some(Op::Exp),
    }
}

/// The arithmetic operator of a compound assignment.
pub fn compound(op: &AssignOp) -> (r: Option<Op>)
    ensures
        r == compound_op(*op),
{
    match op {
        AssignOp::Equals => None,
        AssignOp::AddEq => Some(Op::Add),
        AssignOp::SubEq => Some(Op::Sub),
        AssignOp::MulEq => Some(Op::Mul),
        AssignOp::DivEq => Some(Op::Div),
        AssignOp::ModEq => Some(Op::Mod),
        AssignOp::ExpEq => Some(Op::Exp),
    }
}

/// Lexicographic order on character sequences.
pub open spec fn seq_less(a: Seq<char>, b: Seq<char>) -> bool
    decreases a.len(),
{
    if b.len() == 0 {
        false
    } else if a.len() == 0 {
        true
    } else if a[0] != b[0] {
        (a[0] as u32) < (b[0] as u32)
    } else {
        seq_less(a.drop_first(), b.drop_first())
    }
}

/// What a comparison says of two strings.
pub open spec fn compare_seqs(op: CompOp, a: Seq<char>, b: Seq<char>) -> bool {
    match op {
        CompOp::Equal => a == b,
        CompOp::NotEq => a != b,
        CompOp::Gt => seq_less(b, a),
        CompOp::Ge => !seq_less(a, b),
        CompOp::Lt => seq_less(a, b),
        CompOp::Le => !seq_less(b, a),
    }
}

/// Whether `a` comes before `b` in lexicographic order.
pub fn str_less(a: &String, b: &String) -> (r: bool)
    ensures
        r == seq_less(a@, b@),
{
    let x = a.as_str();
    let y = b.as_str();
    let n = x.unicode_len();
    let m = y.unicode_len();
    let mut i: usize = 0;
    proof {
        assert(a@.subrange(0, n as int) =~= a@);
        assert(b@.subrange(0, m as int) =~= b@);
        assert(a@.subrange(0, 0) =~= b@.subrange(0, 0));
    }
    while i < n && i < m
        invariant
            n == a@.len(),
            m == b@.len(),
            x@ == a@,
            y@ == b@,
            i <= n,
            i <= m,
            a@.subrange(0, i as int) == b@.subrange(0, i as int),
            seq_less(a@, b@) == seq_less(a@.subrange(i as int, n as int), b@.subrange(i as int, m as int)),
        decreases n - i,
    {
        let c = x.get_char(i);
        let d = y.get_char(i);
        proof {
            let s = a@.subrange(i as int, n as int);
            let t = b@.subrange(i as int, m as int);
            assert(s[0] == c && t[0] == d);
            assert(s.drop_first() =~= a@.subrange(i + 1, n as int));
            assert(t.drop_first() =~= b@.subrange(i + 1, m as int));
        }
        if c != d {
            return (c as u32) < (d as u32);
        }
        proof {
            assert(a@.subrange(0, i + 1) =~= a@.subrange(0, i as int).push(c));
            assert(b@.subrange(0, i + 1) =~= b@.subrange(0, i as int).push(d));
        }
        i += 1;
    }
    i < m
}

/// Whether two strings are equal.
pub fn str_equal(a: &String, b: &String) -> (r: bool)
    ensures
        r == (a@ == b@),
{
    *a == *b
}

/// The outcomes a binary arithmetic operation may have.
pub open spec fn binop_rule(op: Op, a: Val, b: Val, out: Result<Val, Fault>) -> bool {
    match (a, b) {
        (Val::Num(_), Val::Num(_)) => out is Ok && out->Ok_0 is Num,
        (Val::Str(x), Val::Str(y)) => if op is Add {
            out == Ok::<Val, Fault>(Val::Str(x + y))
        } else {
            out == Err::<Val, Fault>(Fault::InvalidOperation(Tag::Str, Tag::Str))
        },
        _ => out == Err::<Val, Fault>(Fault::InvalidOperation(tag_of(a), tag_of(b))),
    }
}

/// A binary arithmetic operation on two values. Two numbers give the number
/// that the arithmetic gives; two strings under `Add` give their
/// concatenation; anything else is an invalid operation.
pub fn binop_values<A: Host>(ar: &A, op: &Op, a: &Value, b: &Value) -> (r: Result<Value, EvalError>)
    ensures
        binop_rule(*op, a@, b@, outcome(r)),
{
    match (a, b) {
        (Value::Num(x), Value::Num(y)) => Ok(Value::Num(ar.apply(op, *x, *y))),
        (Value::String(x), Value::String(y)) => {
            match op {
                Op::Add => {
                    let mut s = x.clone();
                    s.append(y.as_str());
                    Ok(Value::String(s))
                },
                _ => Err(EvalError::InvalidOperation(Type::String, Type::String)),
            }
        },
        _ => Err(EvalError::InvalidOperation(a.get_type(), b.get_type())),
    }
}

/// The outcomes a comparison may have.
pub open spec fn compare_rule(op: CompOp, a: Val, b: Val, out: Result<Val, Fault>) -> bool {
    match (a, b) {
        (Val::Num(_), Val::Num(_)) => out is Ok && out->Ok_0 is Bool,
        (Val::Str(x), Val::Str(y)) => out == Ok::<Val, Fault>(Val::Bool(compare_seqs(op, x, y))),
        _ => out == Err::<Val, Fault>(Fault::InvalidComparison(tag_of(a), tag_of(b))),
    }
}

/// A comparison of two values: two numbers as the arithmetic orders them,
/// two strings in lexicographic order; anything else is an invalid
/// comparison.
pub fn compare_values<A: Host>(ar: &A, op: &CompOp, a: &Value, b: &Value) -> (r: Result<Value, EvalError>)
    ensures
        compare_rule(*op, a@, b@, outcome(r)),
{
    match (a, b) {
        (Value::Num(x), Value::Num(y)) => Ok(Value::Boolean(ar.compare(op, *x, *y))),
        (Value::String(x), Value::String(y)) => {
            let res = match op {
                CompOp::Equal => str_equal(x, y),
                CompOp::NotEq => !str_equal(x, y),
                CompOp::Gt => str_less(y, x),
                CompOp::Ge => !str_less(x, y),
                CompOp::Lt => str_less(x, y),
                CompOp::Le => !str_less(y, x),
            };
            Ok(Value::Boolean(res))
        },
        _ => Err(EvalError::InvalidComparison(a.get_type(), b.get_type())),
    }
}

/// What a boolean connective gives.
pub open spec fn chain(op: BoolLogic, x: bool, y: bool) -> bool {
    match op {
        BoolLogic::And => x && y,
        BoolLogic::Or => x || y,
    }
}

/// The outcome of a boolean connective.
pub open spec fn chain_outcome(op: BoolLogic, a: Val, b: Val) -> Result<Val, Fault> {
    match (a, b) {
        (Val::Bool(x), Val::Bool(y)) => Ok(Val::Bool(chain(op, x, y))),
        _ => Err(Fault::InvalidBooleanOperands(tag_of(a), tag_of(b))),
    }
}

/// A boolean connective on two values, both of which must be booleans.
pub fn chain_values(op: &BoolLogic, a: &Value, b: &Value) -> (r: Result<Value, EvalError>)
    ensures
        outcome(r) == chain_outcome(*op, a@, b@),
{
    match (a, b) {
        (Value::Boolean(x), Value::Boolean(y)) => {
            let res = match op {
                BoolLogic::And => *x && *y,
                BoolLogic::Or => *x || *y,
            };
            Ok(Value::Boolean(res))
        },
        _ => Err(EvalError::InvalidBooleanOperands(a.get_type(), b.get_type())),
    }
}

/// The outcome of `!v`.
pub open spec fn negate_outcome(v: Val) -> Result<Val, Fault> {
    match v {
        Val::Bool(x) => Ok(Val::Bool(!x)),
        _ => Err(Fault::CannotNegate(tag_of(v))),
    }
}

/// `!v`, for a boolean `v`.
pub fn negate_value(v: &Value) -> (r: Result<Value, EvalError>)
    ensures
        outcome(r) == negate_outcome(v@),
{
    match v {
        Value::Boolean(x) => Ok(Value::Boolean(!*x)),
        _ => Err(EvalError::CannotNegate(v.get_type())),
    }
}

/// The outcomes indexing may have: an element of the array at the
/// position the number names, or `IndexOutOfBounds` when there is none.
pub open spec fn index_rule(base: Val, idx: Val, out: Result<Val, Fault>) -> bool {
    match (base, idx) {
        (Val::Arr(vs), Val::Num(n)) => match out {
            Ok(v) => exists|k: int| 0 <= k < vs.len() && v == vs[k],
            Err(f) => f == Fault::IndexOutOfBounds(n, vs.len()),
        },
        (_, Val::Num(_)) => out == Err::<Val, Fault>(Fault::NotIndexable(tag_of(base))),
        _ => out == Err::<Val, Fault>(Fault::InvalidIndexType(tag_of(idx))),
    }
}

/// The element of `base` at the position that the number `idx` names.
pub fn index_value<A: Host>(ar: &A, base: &Value, idx: &Value) -> (r: Result<Value, EvalError>)
    ensures
        index_rule(base@, idx@, outcome(r)),
{
    match idx {
        Value::Num(n) => {
            match base {
                Value::Array(vs) => {
                    let k = ar.index(*n);
                    let r = element_at(vs, k, *n);
                    proof {
                        if let Some(i) = k {
                            if i < vs@.len() {
                                assert(base@->Arr_0[i as int] == vs@[i as int]@);
                            }
                        }
                    }
                    r
                },
                _ => Err(EvalError::NotIndexable(base.get_type())),
            }
        },
        _ => Err(EvalError::InvalidIndexType(idx.get_type())),
    }
}

/// The element of `vs` at position `k`, where `k` is what the number `n`
/// truncates to (`None` when it is negative).
pub fn element_at(vs: &Vec<Value>, k: Option<usize>, n: u64) -> (r: Result<Value, EvalError>)
    ensures
        outcome(r) == match k {
            Some(i) if i < vs@.len() => Ok::<Val, Fault>(vs@[i as int]@),
            _ => Err(Fault::IndexOutOfBounds(n, vs@.len())),
        },
{
    match k {
        Some(i) => {
            if i < vs.len() {
                Ok(vs[i].copy())
            } else {
                Err(EvalError::IndexOutOfBounds(n, vs.len()))
            }
        },
        None => Err(EvalError::IndexOutOfBounds(n, vs.len())),
    }
}

/// The outcomes `length` may have.
pub open spec fn length_rule(v: Val, out: Result<Val, Fault>) -> bool {
    match v {
        Val::Arr(_) => out is Ok && out->Ok_0 is Num,
        _ => out == Err::<Val, Fault>(Fault::NoLength(tag_of(v))),
    }
}

/// The length of an array, as a number.
pub fn length_value<A: Host>(ar: &A, v: &Value) -> (r: Result<Value, EvalError>)
    ensures
        length_rule(v@, outcome(r)),
{
    match v {
        Value::Array(vs) => Ok(Value::Num(ar.count(vs.len()))),
        _ => Err(EvalError::NoLength(v.get_type())),
    }
}

/// The value a compound assignment stores: `old op rhs`, for two numbers.
pub fn compound_values<A: Host>(ar: &A, op: &Op, old: &Value, rhs: &Value) -> (r: Result<Value, EvalError>)
    ensures
        match (old@, rhs@) {
            (Val::Num(_), Val::Num(_)) => r is Ok && r->Ok_0@ is Num,
            _ => outcome(r) == Err::<Val, Fault>(Fault::InvalidCompoundAssign(tag_of(old@))),
        },
{
    match (old, rhs) {
        (Value::Num(x), Value::Num(y)) => Ok(Value::Num(ar.apply(op, *x, *y))),
        _ => Err(EvalError::InvalidCompoundAssign(old.get_type())),
    }
}

} // verus!
