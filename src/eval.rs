//! The evaluator: expressions to values, statements to changes of the
//! environment, and the protocol of a call. Every step spends fuel, so that
//! each run ends; a program that runs out of fuel stops with `OutOfFuel`.
use vstd::prelude::*;
use crate::ast::{Code, Expr, IfStatement, Line, Statement, valid_ident, validate_ident};
use crate::env::{Env, insert_model, lookup};
use crate::error::{EvalError, Fault, outcome};
use crate::ops::{
    BoolLogic, CompOp, Host, Op, binop_rule, binop_values, chain_outcome, chain_values,
    compare_rule, compare_values, compound, compound_op, compound_values, index_rule, index_value,
    length_rule, length_value, negate_outcome, negate_value,
};
use crate::text::{bool_text, owned, parse_bool, print_text, split_chars, type_text};
use crate::value::{
    Type, Tag, Value, Val, bindings_view, copy_params, params_view, tag_of,
};

verus! {

/// What `str::to_uppercase` gives for a string.
pub uninterp spec fn upper_of(s: Seq<char>) -> Seq<char>;

/// What `str::to_lowercase` gives for a string.
pub uninterp spec fn lower_of(s: Seq<char>) -> Seq<char>;

/// Relies on str::to_uppercase: its result depends on the characters alone.
#[verifier::external_body]
fn uppercase(s: &str) -> (r: String)
    ensures
        r@ == upper_of(s@),
{
    s.to_uppercase()
}

/// Relies on str::to_lowercase: its result depends on the characters alone.
#[verifier::external_body]
fn lowercase(s: &str) -> (r: String)
    ensures
        r@ == lower_of(s@),
{
    s.to_lowercase()
}

/// The outcome of `to_upper`.
pub open spec fn upper_outcome(v: Val) -> Result<Val, Fault> {
    match v {
        Val::Str(s) => Ok(Val::Str(upper_of(s))),
        _ => Err(Fault::WrongType(tag_of(v))),
    }
}

/// The outcome of `to_lower`.
pub open spec fn lower_outcome(v: Val) -> Result<Val, Fault> {
    match v {
        Val::Str(s) => Ok(Val::Str(lower_of(s))),
        _ => Err(Fault::WrongType(tag_of(v))),
    }
}

/// A string in upper case.
pub fn upper_value(v: &Value) -> (r: Result<Value, EvalError>)
    ensures
        outcome(r) == upper_outcome(v@),
{
    match v {
        Value::String(s) => Ok(Value::String(uppercase(s.as_str()))),
        _ => Err(EvalError::WrongType(v.get_type())),
    }
}

/// A string in lower case.
pub fn lower_value(v: &Value) -> (r: Result<Value, EvalError>)
    ensures
        outcome(r) == lower_outcome(v@),
{
    match v {
        Value::String(s) => Ok(Value::String(lowercase(s.as_str()))),
        _ => Err(EvalError::WrongType(v.get_type())),
    }
}

/// The type that a keyword names.
pub open spec fn type_named(s: Seq<char>) -> Option<Tag> {
    if s == "num"@ {
        Some(Tag::Num)
    } else if s == "string"@ {
        Some(Tag::Str)
    } else if s == "bool"@ {
        Some(Tag::Bool)
    } else if s == "array"@ {
        Some(Tag::Arr)
    } else if s == "type"@ {
        Some(Tag::Ty)
    } else if s == "void"@ {
        Some(Tag::Void)
    } else {
        None
    }
}

/// The type that the keyword `s` names.
pub fn type_ident(s: &String) -> (r: Option<Type>)
    ensures
        match r {
            Some(t) => type_named(s@) == Some(t@),
            None => type_named(s@) is None,
        },
{
    if *s == owned("num") {
        Some(Type::Num)
    } else if *s == owned("string") {
        Some(Type::String)
    } else if *s == owned("bool") {
        Some(Type::Boolean)
    } else if *s == owned("array") {
        Some(Type::Array)
    } else if *s == owned("type") {
        Some(Type::Type)
    } else if *s == owned("void") {
        Some(Type::Void)
    } else {
        None
    }
}

/// The characters of `s` as strings of one character.
pub open spec fn char_strings(s: Seq<char>) -> Seq<Val> {
    Seq::new(s.len(), |i: int| Val::Str(seq![s[i]]))
}

/// A typecast whose result the host does not decide.
pub open spec fn cast(v: Val, t: Tag) -> Result<Val, Fault> {
    match (v, t) {
        (Val::Bool(b), Tag::Str) => Ok(Val::Str(bool_text(b))),
        (Val::Ty(x), Tag::Str) => Ok(Val::Str(type_text(x))),
        (Val::Str(s), Tag::Bool) => if s == "true"@ {
            Ok(Val::Bool(true))
        } else if s == "false"@ {
            Ok(Val::Bool(false))
        } else {
            Err(Fault::ParseError(s))
        },
        (Val::Str(s), Tag::Ty) => match type_named(s) {
            Some(x) => Ok(Val::Ty(x)),
            None => Err(Fault::ParseError(s)),
        },
        (Val::Str(s), Tag::Arr) => Ok(Val::Arr(char_strings(s))),
        _ => Err(Fault::InvalidTypecast(tag_of(v), t)),
    }
}

/// The outcomes `v as target` may have.
pub open spec fn typecast_rule(v: Val, target: Val, out: Result<Val, Fault>) -> bool {
    match target {
        Val::Ty(t) => match (v, t) {
            (Val::Num(_), Tag::Str) => out is Ok && out->Ok_0 is Str,
            (Val::Str(s), Tag::Num) => match out {
                Ok(x) => x is Num,
                Err(f) => f == Fault::ParseError(s),
            },
            _ => out == cast(v, t),
        },
        _ => out == Err::<Val, Fault>(Fault::ExpectedType(tag_of(target))),
    }
}

/// `v as target`. A number becomes its text and a string becomes the number
/// it writes as the host reads them; the other conversions are `cast`.
pub fn typecast<A: Host>(host: &A, v: &Value, target: &Value) -> (r: Result<Value, EvalError>)
    ensures
        typecast_rule(v@, target@, outcome(r)),
{
    let t = match target {
        Value::Type(t) => t,
        _ => {
            return Err(EvalError::ExpectedType(target.get_type()));
        },
    };
    match (v, t) {
        (Value::Num(n), Type::String) => Ok(Value::String(host.render(*n))),
        (Value::Boolean(b), Type::String) => Ok(Value::String(crate::text::bool_to_text(*b))),
        (Value::Type(x), Type::String) => Ok(Value::String(x.to_text())),
        (Value::String(s), Type::Num) => match host.parse(s.as_str()) {
            Some(n) => Ok(Value::Num(n)),
            None => Err(EvalError::ParseError(s.clone())),
        },
        (Value::String(s), Type::Boolean) => match parse_bool(s) {
            Some(b) => Ok(Value::Boolean(b)),
            None => Err(EvalError::ParseError(s.clone())),
        },
        (Value::String(s), Type::Type) => match type_ident(s) {
            Some(x) => Ok(Value::Type(x)),
            None => Err(EvalError::ParseError(s.clone())),
        },
        (Value::String(s), Type::Array) => {
            let cs = split_chars(s);
            proof {
                let a = char_strings(s@);
                let b = Value::Array(cs)@->Arr_0;
                assert forall|i: int| 0 <= i < a.len() implies a[i] == b[i] by {
                    assert(cs@[i]@ == Val::Str(seq![s@[i]]));
                }
                assert(a =~= b);
            }
            Ok(Value::Array(cs))
        },
        _ => Err(EvalError::InvalidTypecast(v.get_type(), t.copy())),
    }
}

/// The outcome of reading the variable `n`.
pub open spec fn reference_outcome(s: Seq<(Seq<char>, Val)>, n: Seq<char>) -> Result<Val, Fault> {
    if !valid_ident(n) {
        Err(Fault::InvalidIdentifier(n))
    } else {
        match lookup(s, n) {
            Some(v) => Ok(v),
            None => Err(Fault::UndefinedVariable(n)),
        }
    }
}

/// The value of the variable `n`.
pub fn reference(env: &Env, n: &String) -> (r: Result<Value, EvalError>)
    ensures
        outcome(r) == reference_outcome(env@, n@),
{
    if !validate_ident(n) {
        return Err(EvalError::InvalidIdentifier(n.clone()));
    }
    match env.get(n) {
        Some(v) => Ok(v),
        None => Err(EvalError::UndefinedVariable(n.clone())),
    }
}

/// Whether the first `n` arguments have the declared types.
pub open spec fn args_agree(ps: Seq<(Seq<char>, Tag)>, args: Seq<Val>, n: int) -> bool {
    forall|i: int| 0 <= i < n ==> #[trigger] ps[i].1 == tag_of(args[i])
}

/// The parameters bound to the arguments, in order.
pub open spec fn bound_params(ps: Seq<(Seq<char>, Tag)>, args: Seq<Val>) -> Seq<(Seq<char>, Val)> {
    Seq::new(ps.len(), |i: int| (ps[i].0, args[i]))
}

/// The models of a list of values.
pub open spec fn vals(vs: Seq<Value>) -> Seq<Val> {
    Seq::new(vs.len(), |i: int| vs[i]@)
}

/// What a call checks before its body runs: that the callee is a closure,
/// the count of arguments, the type of each argument in order, and that
/// the body exists. `None` when all of that holds.
pub open spec fn call_check(f: Val, args: Seq<Val>, n_bodies: nat) -> Option<Fault> {
    match f {
        Val::Func(_, ps, body) => if ps.len() != args.len() {
            Some(Fault::WrongArgCount(ps.len(), args.len()))
        } else if !args_agree(ps, args, ps.len() as int) {
            let j = choose|j: int|
                0 <= j < ps.len() && args_agree(ps, args, j) && ps[j].1 != tag_of(args[j]);
            Some(Fault::WrongArgType(ps[j].1, tag_of(args[j])))
        } else if body >= n_bodies {
            Some(Fault::UnknownBody(body))
        } else {
            None
        },
        _ => Some(Fault::NotCallable(tag_of(f))),
    }
}

/// The frame a closure's body runs in: what it captured, overridden by the
/// caller's bindings, overridden by the parameters.
pub fn call_frame(
    captured: &Vec<(String, Value)>,
    caller: &Env,
    ps: &Vec<(String, Type)>,
    args: &Vec<Value>,
) -> (r: Env)
    requires
        ps@.len() == args@.len(),
    ensures
        r@ == frame_model(bindings_view(captured@), caller@, params_view(ps@), vals(args@)),
        forall|k: Seq<char>|
            lookup(r@, k) == (match lookup(bound_params(params_view(ps@), vals(args@)), k) {
                Some(v) => Some(v),
                None => match lookup(caller@, k) {
                    Some(v) => Some(v),
                    None => lookup(bindings_view(captured@), k),
                },
            }),
{
    let mut frame = Env::frame(captured, caller);
    let ghost base = frame@;
    let ghost bound = bound_params(params_view(ps@), vals(args@));
    let mut i: usize = 0;
    while i < ps.len()
        invariant
            i <= ps@.len(),
            ps@.len() == args@.len(),
            bound == bound_params(params_view(ps@), vals(args@)),
            base == bindings_view(captured@) + caller@,
            frame@ == bind_all(base, bound, i as nat),
            forall|k: Seq<char>|
                lookup(frame@, k) == (match lookup(bound.subrange(0, i as int), k) {
                    Some(v) => Some(v),
                    None => lookup(base, k),
                }),
        decreases ps@.len() - i,
    {
        let ghost before = frame@;
        frame.insert(ps[i].0.clone(), args[i].copy());
        proof {
            let sub = bound.subrange(0, i + 1);
            assert(sub.drop_last() =~= bound.subrange(0, i as int));
            assert(sub.last() == (ps@[i as int].0@, args@[i as int]@));
        }
        i += 1;
    }
    proof {
        assert(bound.subrange(0, ps@.len() as int) =~= bound);
    }
    frame
}

/// The rules that combine the value of one operand.
pub enum UnaryRule {
    TypeOf,
    Not,
    Length,
    Upper,
    Lower,
}

/// The rules that combine the values of two operands.
pub enum BinaryRule {
    Cast,
    Index,
    Arith(Op),
    Compare(CompOp),
    Chain(BoolLogic),
}

/// The outcomes a rule of one operand may give for its value.
pub open spec fn unary_rule(k: UnaryRule, v: Val, out: Result<Val, Fault>) -> bool {
    match k {
        UnaryRule::TypeOf => out == Ok::<Val, Fault>(Val::Ty(tag_of(v))),
        UnaryRule::Not => out == negate_outcome(v),
        UnaryRule::Length => length_rule(v, out),
        UnaryRule::Upper => out == upper_outcome(v),
        UnaryRule::Lower => out == lower_outcome(v),
    }
}

/// The outcomes a rule of two operands may give for their values.
pub open spec fn binary_rule(k: BinaryRule, a: Val, b: Val, out: Result<Val, Fault>) -> bool {
    match k {
        BinaryRule::Cast => typecast_rule(a, b, out),
        BinaryRule::Index => index_rule(a, b, out),
        BinaryRule::Arith(op) => binop_rule(op, a, b, out),
        BinaryRule::Compare(op) => compare_rule(op, a, b, out),
        BinaryRule::Chain(op) => out == chain_outcome(op, a, b),
    }
}

/// The outcome of an expression that takes no step below it: a literal,
/// a variable, a closure.
pub open spec fn leaf_outcome(env: Seq<(Seq<char>, Val)>, e: Expr) -> Option<Result<Val, Fault>> {
    match e {
        Expr::Literal(v) => Some(Ok(v@)),
        Expr::Reference(n) => Some(reference_outcome(env, n@)),
        Expr::FuncDef(ps, b) => Some(Ok(Val::Func(env, params_view(ps@), b as nat))),
        _ => None,
    }
}

/// Marks the outcome an operand was chosen to have: it names the witness
/// of each choice in `evals`, and holds of everything.
pub open spec fn chosen<T>(x: T) -> bool {
    true
}

/// The outcomes evaluating `e` may have, with `fuel` steps, in an
/// environment whose model is `env`, with the closure bodies `bs`. Each step
/// spends one unit of fuel. Operands are evaluated from left to right, all
/// of them (a boolean connective too), and the first failure is the failure
/// of the whole; else the rule of the node combines their values. A call
/// that passes `call_check` runs the closure's body in `frame_model`, and
/// gives the value of its first `return`, or `Void`. Left open is only what
/// the host computes: numbers and their order.
pub open spec fn evals(
    env: Seq<(Seq<char>, Val)>,
    bs: Seq<Vec<Statement>>,
    e: Expr,
    fuel: nat,
    out: Result<Val, Fault>,
) -> bool
    decreases fuel, 0nat, 0nat,
{
    if fuel == 0 {
        out == Err::<Val, Fault>(Fault::OutOfFuel)
    } else {
        let f = (fuel - 1) as nat;
        match e {
            Expr::Literal(v) => out == Ok::<Val, Fault>(v@),
            Expr::Numeral(t) => (out is Ok && out->Ok_0 is Num) || out == Err::<Val, Fault>(
                Fault::ParseError(t@),
            ),
            Expr::Reference(n) => out == reference_outcome(env, n@),
            Expr::FuncDef(ps, b) => out == Ok::<Val, Fault>(
                Val::Func(env, params_view(ps@), b as nat),
            ),
            Expr::Typecast(x, t) => evals2(env, bs, *x, *t, f, BinaryRule::Cast, out),
            Expr::TypeOf(x) => evals1(env, bs, *x, f, UnaryRule::TypeOf, out),
            Expr::CallFunc(callee, args) => exists|oc: Result<Val, Fault>|
                #[trigger] chosen(oc) && evals(env, bs, *callee, f, oc) && match oc {
                    Err(x) => out == Err::<Val, Fault>(x),
                    Ok(fv) => exists|oa: Result<Seq<Val>, Fault>|
                        #[trigger] chosen(oa) && evals_list(env, bs, args@, f, args@.len(), oa)
                            && match oa {
                            Err(x) => out == Err::<Val, Fault>(x),
                            Ok(avs) => match call_check(fv, avs, bs.len()) {
                                Some(x) => out == Err::<Val, Fault>(x),
                                None => exists|p: (Seq<(Seq<char>, Val)>, Result<Option<Val>, Fault>)|
                                    #[trigger] chosen(p) && runs_block(
                                        frame_model(fv->Func_0, env, fv->Func_1, avs),
                                        bs,
                                        bs[fv->Func_2 as int]@,
                                        f,
                                        bs[fv->Func_2 as int]@.len(),
                                        p.0,
                                        p.1,
                                    ) && out == call_result(p.1),
                            },
                        },
                },
            Expr::Array(es) => exists|oa: Result<Seq<Val>, Fault>|
                #[trigger] chosen(oa) && evals_list(env, bs, es@, f, es@.len(), oa) && out
                    == match oa {
                    Ok(vs) => Ok::<Val, Fault>(Val::Arr(vs)),
                    Err(x) => Err(x),
                },
            Expr::Index(a, b) => evals2(env, bs, *a, *b, f, BinaryRule::Index, out),
            Expr::BinOp(op, a, b) => evals2(env, bs, *a, *b, f, BinaryRule::Arith(op), out),
            Expr::Comparison(op, a, b) => evals2(env, bs, *a, *b, f, BinaryRule::Compare(op), out),
            Expr::BoolChain(op, a, b) => evals2(env, bs, *a, *b, f, BinaryRule::Chain(op), out),
            Expr::UnOp(_, x) => evals1(env, bs, *x, f, UnaryRule::Not, out),
            Expr::Length(x) => evals1(env, bs, *x, f, UnaryRule::Length, out),
            Expr::ToUpper(x) => evals1(env, bs, *x, f, UnaryRule::Upper, out),
            Expr::ToLower(x) => evals1(env, bs, *x, f, UnaryRule::Lower, out),
        }
    }
}

/// The outcomes of a node of one operand `a`.
pub open spec fn evals1(
    env: Seq<(Seq<char>, Val)>,
    bs: Seq<Vec<Statement>>,
    a: Expr,
    fuel: nat,
    k: UnaryRule,
    out: Result<Val, Fault>,
) -> bool
    decreases fuel, 1nat, 0nat,
{
    exists|oa: Result<Val, Fault>|
        #[trigger] chosen(oa) && evals(env, bs, a, fuel, oa) && match oa {
            Err(x) => out == Err::<Val, Fault>(x),
            Ok(v) => unary_rule(k, v, out),
        }
}

/// The outcomes of a node of two operands `a` and `b`: `b` is evaluated
/// whenever `a` succeeds, whatever its value.
pub open spec fn evals2(
    env: Seq<(Seq<char>, Val)>,
    bs: Seq<Vec<Statement>>,
    a: Expr,
    b: Expr,
    fuel: nat,
    k: BinaryRule,
    out: Result<Val, Fault>,
) -> bool
    decreases fuel, 1nat, 0nat,
{
    exists|oa: Result<Val, Fault>|
        #[trigger] chosen(oa) && evals(env, bs, a, fuel, oa) && match oa {
            Err(x) => out == Err::<Val, Fault>(x),
            Ok(x) => exists|ob: Result<Val, Fault>|
                #[trigger] chosen(ob) && evals(env, bs, b, fuel, ob) && match ob {
                    Err(y) => out == Err::<Val, Fault>(y),
                    Ok(y) => binary_rule(k, x, y, out),
                },
        }
}

/// The outcomes of evaluating the first `n` of `es` from left to right.
pub open spec fn evals_list(
    env: Seq<(Seq<char>, Val)>,
    bs: Seq<Vec<Statement>>,
    es: Seq<Expr>,
    fuel: nat,
    n: nat,
    out: Result<Seq<Val>, Fault>,
) -> bool
    decreases fuel, 1nat, n,
{
    if n == 0 {
        out == Ok::<Seq<Val>, Fault>(Seq::empty())
    } else if n > es.len() {
        false
    } else {
        exists|prev: Result<Seq<Val>, Fault>|
            #[trigger] chosen(prev) && evals_list(env, bs, es, fuel, (n - 1) as nat, prev)
                && match prev {
                Err(x) => out == Err::<Seq<Val>, Fault>(x),
                Ok(vs) => exists|o: Result<Val, Fault>|
                    #[trigger] chosen(o) && evals(env, bs, es[n - 1], fuel, o) && match o {
                        Err(x) => out == Err::<Seq<Val>, Fault>(x),
                        Ok(v) => out == Ok::<Seq<Val>, Fault>(vs.push(v)),
                    },
            }
    }
}

/// A failure among the first `k` stays the failure of any longer prefix.
proof fn lemma_list_failure(
    env: Seq<(Seq<char>, Val)>,
    bs: Seq<Vec<Statement>>,
    es: Seq<Expr>,
    fuel: nat,
    k: nat,
    n: nat,
    x: Fault,
)
    requires
        evals_list(env, bs, es, fuel, k, Err(x)),
        k <= n <= es.len(),
    ensures
        evals_list(env, bs, es, fuel, n, Err(x)),
    decreases n,
{
    if n > k {
        lemma_list_failure(env, bs, es, fuel, k, (n - 1) as nat, x);
        assert(chosen(Err::<Seq<Val>, Fault>(x)));
    }
}

/// `s` with the bindings `b[0..n]` made one after another.
pub open spec fn bind_all(s: Seq<(Seq<char>, Val)>, b: Seq<(Seq<char>, Val)>, n: nat) -> Seq<(Seq<char>, Val)>
    decreases n,
{
    if n == 0 || n > b.len() {
        s
    } else {
        insert_model(bind_all(s, b, (n - 1) as nat), b[n - 1].0, b[n - 1].1)
    }
}

/// The frame a closure's body runs in: the bindings it captured, then the
/// caller's, then its parameters bound to the arguments in order.
pub open spec fn frame_model(
    captured: Seq<(Seq<char>, Val)>,
    caller: Seq<(Seq<char>, Val)>,
    ps: Seq<(Seq<char>, Tag)>,
    args: Seq<Val>,
) -> Seq<(Seq<char>, Val)> {
    bind_all(captured + caller, bound_params(ps, args), ps.len())
}

/// What a call gives for the outcome of its body.
pub open spec fn call_result(o: Result<Option<Val>, Fault>) -> Result<Val, Fault> {
    match o {
        Ok(Some(v)) => Ok(v),
        Ok(None) => Ok(Val::Void),
        Err(x) => Err(x),
    }
}

/// The model of the outcome of running a statement.
pub open spec fn stmt_outcome(r: Result<Option<Value>, EvalError>) -> Result<Option<Val>, Fault> {
    match r {
        Ok(Some(v)) => Ok(Some(v@)),
        Ok(None) => Ok(None),
        Err(e) => Err(e@),
    }
}

/// The outcomes of running the first `n` statements of `body` from `env`,
/// with the environment `env2` they leave: each runs in the environment the
/// one before left, and the first `return` or failure ends the block.
pub open spec fn runs_block(
    env: Seq<(Seq<char>, Val)>,
    bs: Seq<Vec<Statement>>,
    body: Seq<Statement>,
    fuel: nat,
    n: nat,
    env2: Seq<(Seq<char>, Val)>,
    out: Result<Option<Val>, Fault>,
) -> bool
    decreases fuel, 1nat, n,
{
    if n == 0 {
        env2 == env && out == Ok::<Option<Val>, Fault>(None)
    } else if n > body.len() {
        false
    } else {
        exists|p: (Seq<(Seq<char>, Val)>, Result<Option<Val>, Fault>)|
            #[trigger] chosen(p) && runs_block(env, bs, body, fuel, (n - 1) as nat, p.0, p.1)
                && if p.1 == Ok::<Option<Val>, Fault>(None) {
                execs(p.0, bs, body[n - 1], fuel, env2, out)
            } else {
                env2 == p.0 && out == p.1
            }
    }
}

/// The outcomes of a statement that evaluates `x` and ends with `ok(v)` on
/// its value `v`, leaving the environment as it was.
pub open spec fn evals_then(
    env: Seq<(Seq<char>, Val)>,
    bs: Seq<Vec<Statement>>,
    x: Expr,
    fuel: nat,
    env2: Seq<(Seq<char>, Val)>,
    out: Result<Option<Val>, Fault>,
    ok: spec_fn(Val) -> Result<Option<Val>, Fault>,
) -> bool
    decreases fuel, 1nat, 0nat,
{
    env2 == env && exists|o: Result<Val, Fault>|
        #[trigger] chosen(o) && evals(env, bs, x, fuel, o) && out == match o {
            Ok(v) => ok(v),
            Err(y) => Err(y),
        }
}

/// The branches of an `if`, in the order they are tried.
pub open spec fn branches_of(first: IfStatement, elifs: Option<Vec<IfStatement>>) -> Seq<IfStatement> {
    seq![first] + match elifs {
        Some(v) => v@,
        None => Seq::empty(),
    }
}

/// The model of an `else` branch.
pub open spec fn else_of(b: Option<Vec<Statement>>) -> Option<Seq<Statement>> {
    match b {
        Some(v) => Some(v@),
        None => None,
    }
}

/// The outcomes of an `if` from its branch `i` on: each condition in
/// order, the body of the first that is true, else the `else` branch.
pub open spec fn execs_if(
    env: Seq<(Seq<char>, Val)>,
    bs: Seq<Vec<Statement>>,
    brs: Seq<IfStatement>,
    i: nat,
    els: Option<Seq<Statement>>,
    fuel: nat,
    env2: Seq<(Seq<char>, Val)>,
    out: Result<Option<Val>, Fault>,
) -> bool
    decreases fuel, 2nat, brs.len() - i,
{
    if i >= brs.len() {
        match els {
            Some(b) => runs_block(env, bs, b, fuel, b.len(), env2, out),
            None => env2 == env && out == Ok::<Option<Val>, Fault>(None),
        }
    } else {
        exists|o: Result<Val, Fault>|
            #[trigger] chosen(o) && evals(env, bs, brs[i as int].e, fuel, o) && match o {
                Err(y) => env2 == env && out == Err::<Option<Val>, Fault>(y),
                Ok(Val::Bool(b)) => if b {
                    runs_block(env, bs, brs[i as int].s@, fuel, brs[i as int].s@.len(), env2, out)
                } else {
                    execs_if(env, bs, brs, i + 1, els, fuel, env2, out)
                },
                Ok(v) => env2 == env && out == Err::<Option<Val>, Fault>(Fault::ExpectedBoolean(tag_of(v))),
            }
    }
}

/// The outcomes of `while c { body }` with a budget of `b` iterations: the
/// condition before each one, the body on the shared environment while it
/// is true, the loop's end at the first false; a `return` or failure in
/// the body ends the loop.
pub open spec fn loops(
    env: Seq<(Seq<char>, Val)>,
    bs: Seq<Vec<Statement>>,
    c: Expr,
    body: Seq<Statement>,
    b: nat,
    env2: Seq<(Seq<char>, Val)>,
    out: Result<Option<Val>, Fault>,
) -> bool
    decreases b, 2nat, 0nat,
{
    if b == 0 {
        env2 == env && out == Err::<Option<Val>, Fault>(Fault::OutOfFuel)
    } else {
        exists|o: Result<Val, Fault>|
            #[trigger] chosen(o) && evals(env, bs, c, b, o) && match o {
                Err(y) => env2 == env && out == Err::<Option<Val>, Fault>(y),
                Ok(Val::Bool(t)) => if t {
                    exists|p: (Seq<(Seq<char>, Val)>, Result<Option<Val>, Fault>)|
                        #[trigger] chosen(p) && runs_block(env, bs, body, b, body.len(), p.0, p.1)
                            && if p.1 == Ok::<Option<Val>, Fault>(None) {
                            loops(p.0, bs, c, body, (b - 1) as nat, env2, out)
                        } else {
                            env2 == p.0 && out == p.1
                        }
                } else {
                    env2 == env && out == Ok::<Option<Val>, Fault>(None)
                },
                Ok(v) => env2 == env && out == Err::<Option<Val>, Fault>(Fault::ExpectedBoolean(tag_of(v))),
            }
    }
}

/// The outcomes of running `st` from `env`, with the environment `env2` it
/// leaves. `Some(v)` when it returned `v`.
pub open spec fn execs(
    env: Seq<(Seq<char>, Val)>,
    bs: Seq<Vec<Statement>>,
    st: Statement,
    fuel: nat,
    env2: Seq<(Seq<char>, Val)>,
    out: Result<Option<Val>, Fault>,
) -> bool
    decreases fuel, 0nat, 0nat,
{
    if fuel == 0 {
        env2 == env && out == Err::<Option<Val>, Fault>(Fault::OutOfFuel)
    } else {
        let f = (fuel - 1) as nat;
        match st {
            Statement::DeclareVar(n, x) => if !valid_ident(n@) {
                env2 == env && out == Err::<Option<Val>, Fault>(Fault::InvalidIdentifier(n@))
            } else {
                exists|o: Result<Val, Fault>|
                    #[trigger] chosen(o) && evals(env, bs, x, f, o) && match o {
                        Ok(v) => env2 == insert_model(env, n@, v) && out == Ok::<Option<Val>, Fault>(None),
                        Err(y) => env2 == env && out == Err::<Option<Val>, Fault>(y),
                    }
            },
            Statement::MutateVar(op, n, x) => if !valid_ident(n@) {
                env2 == env && out == Err::<Option<Val>, Fault>(Fault::InvalidIdentifier(n@))
            } else if lookup(env, n@) is None {
                env2 == env && out == Err::<Option<Val>, Fault>(Fault::UndeclaredVariable(n@))
            } else {
                let w = lookup(env, n@)->Some_0;
                exists|o: Result<Val, Fault>|
                    #[trigger] chosen(o) && evals(env, bs, x, f, o) && match o {
                        Err(y) => env2 == env && out == Err::<Option<Val>, Fault>(y),
                        Ok(v) => match compound_op(op) {
                            None => env2 == insert_model(env, n@, v) && out == Ok::<Option<Val>, Fault>(None),
                            Some(_) => if w is Num && v is Num {
                                out == Ok::<Option<Val>, Fault>(None) && exists|k: u64|
                                    #[trigger] chosen(k) && env2 == insert_model(env, n@, Val::Num(k))
                            } else {
                                env2 == env && out == Err::<Option<Val>, Fault>(
                                    Fault::InvalidCompoundAssign(tag_of(w)),
                                )
                            },
                        },
                    }
            },
            Statement::Expression(x) => evals_then(env, bs, x, f, env2, out, |v: Val| Ok(None)),
            Statement::Return(x) => evals_then(env, bs, x, f, env2, out, |v: Val| Ok(Some(v))),
            Statement::Exit(x) => env2 == env && exists|o: Result<Val, Fault>|
                #[trigger] chosen(o) && evals(env, bs, x, f, o) && match o {
                    Ok(Val::Num(_)) => out is Err && out->Err_0 is Exit,
                    Ok(v) => out == Err::<Option<Val>, Fault>(Fault::ExitNotNumber(tag_of(v))),
                    Err(y) => out == Err::<Option<Val>, Fault>(y),
                },
            Statement::Print(es) => env2 == env && exists|ol: Result<Seq<Val>, Fault>|
                #[trigger] chosen(ol) && evals_list(env, bs, es@, f, es@.len(), ol) && out == match ol {
                    Ok(_) => Ok::<Option<Val>, Fault>(None),
                    Err(y) => Err(y),
                },
            Statement::Println(es) => env2 == env && exists|ol: Result<Seq<Val>, Fault>|
                #[trigger] chosen(ol) && evals_list(env, bs, es@, f, es@.len(), ol) && out == match ol {
                    Ok(_) => Ok::<Option<Val>, Fault>(None),
                    Err(y) => Err(y),
                },
            Statement::If(first, elifs, els) => execs_if(
                env,
                bs,
                branches_of(first, elifs),
                0,
                else_of(els),
                f,
                env2,
                out,
            ),
            Statement::While(c, body) => loops(env, bs, c, body@, f, env2, out),
        }
    }
}

/// A `return` or failure among the first `k` statements stays the outcome
/// of any longer prefix.
proof fn lemma_block_stops(
    env: Seq<(Seq<char>, Val)>,
    bs: Seq<Vec<Statement>>,
    body: Seq<Statement>,
    fuel: nat,
    k: nat,
    n: nat,
    env2: Seq<(Seq<char>, Val)>,
    out: Result<Option<Val>, Fault>,
)
    requires
        runs_block(env, bs, body, fuel, k, env2, out),
        out != Ok::<Option<Val>, Fault>(None),
        k <= n <= body.len(),
    ensures
        runs_block(env, bs, body, fuel, n, env2, out),
    decreases n,
{
    if n > k {
        lemma_block_stops(env, bs, body, fuel, k, (n - 1) as nat, env2, out);
        assert(chosen((env2, out)));
    }
}

/// The outcomes of running the first `n` statements of a script from
/// `env`: each in the environment the one before left, a `return` ending
/// nothing, the first failure ending the run.
pub open spec fn runs_program(
    env: Seq<(Seq<char>, Val)>,
    bs: Seq<Vec<Statement>>,
    main: Seq<Statement>,
    fuel: nat,
    n: nat,
    env2: Seq<(Seq<char>, Val)>,
    out: Result<(), Fault>,
) -> bool
    decreases n,
{
    if n == 0 {
        env2 == env && out == Ok::<(), Fault>(())
    } else if n > main.len() {
        false
    } else {
        exists|p: (Seq<(Seq<char>, Val)>, Result<(), Fault>)|
            #[trigger] chosen(p) && runs_program(env, bs, main, fuel, (n - 1) as nat, p.0, p.1)
                && match p.1 {
                Ok(_) => exists|q: (Seq<(Seq<char>, Val)>, Result<Option<Val>, Fault>)|
                    #[trigger] chosen(q) && execs(p.0, bs, main[n - 1], fuel, q.0, q.1) && env2 == q.0
                        && out == match q.1 {
                        Ok(_) => Ok::<(), Fault>(()),
                        Err(y) => Err(y),
                    },
                Err(_) => env2 == p.0 && out == p.1,
            }
    }
}

proof fn lemma_program_stops(
    env: Seq<(Seq<char>, Val)>,
    bs: Seq<Vec<Statement>>,
    main: Seq<Statement>,
    fuel: nat,
    k: nat,
    n: nat,
    env2: Seq<(Seq<char>, Val)>,
    x: Fault,
)
    requires
        runs_program(env, bs, main, fuel, k, env2, Err(x)),
        k <= n <= main.len(),
    ensures
        runs_program(env, bs, main, fuel, n, env2, Err(x)),
    decreases n,
{
    if n > k {
        lemma_program_stops(env, bs, main, fuel, k, (n - 1) as nat, env2, x);
        assert(chosen((env2, Err::<(), Fault>(x))));
    }
}

/// The model of the outcome of evaluating a list.
pub open spec fn list_outcome(r: Result<Vec<Value>, EvalError>) -> Result<Seq<Val>, Fault> {
    match r {
        Ok(vs) => Ok(vals(vs@)),
        Err(e) => Err(e@),
    }
}

/// Checks a call before its body runs; see `call_check`.
fn check_call(f: &Value, args: &Vec<Value>, n_bodies: usize) -> (r: Result<(), EvalError>)
    ensures
        match call_check(f@, vals(args@), n_bodies as nat) {
            Some(x) => r is Err && r->Err_0@ == x,
            None => r is Ok,
        },
{
    match f {
        Value::Func(cap, ps, body) => {
            if ps.len() != args.len() {
                return Err(EvalError::WrongArgCount(ps.len(), args.len()));
            }
            let ghost pv = params_view(ps@);
            let ghost av = vals(args@);
            let mut i: usize = 0;
            while i < ps.len()
                invariant
                    i <= ps@.len(),
                    ps@.len() == args@.len(),
                    pv == params_view(ps@),
                    av == vals(args@),
                    *f == Value::Func(*cap, *ps, *body),
                    args_agree(pv, av, i as int),
                decreases ps@.len() - i,
            {
                let t = args[i].get_type();
                if !ps[i].1.same(&t) {
                    proof {
                        assert(pv[i as int].1 != tag_of(av[i as int]));
                        assert(args_agree(pv, av, i as int) && pv[i as int].1 != tag_of(av[i as int]));
                        assert(!args_agree(pv, av, pv.len() as int));
                        let j = choose|j: int|
                            0 <= j < pv.len() && args_agree(pv, av, j) && pv[j].1 != tag_of(av[j]);
                        if j < i {
                            assert(pv[j].1 == tag_of(av[j]));
                        } else if j > i {
                            assert(pv[i as int].1 == tag_of(av[i as int]));
                        }
                        assert(j == i);
                    }
                    let r = Err(EvalError::WrongArgType(ps[i].1.copy(), t));
                    return r;
                }
                i += 1;
            }
            if *body >= n_bodies {
                return Err(EvalError::UnknownBody(*body));
            }
            Ok(())
        },
        _ => Err(EvalError::NotCallable(f.get_type())),
    }
}

/// Calls the closure `f` with `args` from the environment `caller`: checks
/// the call (`call_check`), then runs the body in `call_frame`. The result
/// is the value of the first `return` that runs, or `Void`.
pub fn call<A: Host>(
    host: &mut A,
    code: &Code,
    caller: &Env,
    f: &Value,
    args: &Vec<Value>,
    fuel: u64,
) -> (r: Result<Value, EvalError>)
    ensures
        call_check(f@, vals(args@), code.bodies@.len()) matches Some(x) ==> r is Err && r->Err_0@ == x,
        call_check(f@, vals(args@), code.bodies@.len()) is None ==> exists|
            p: (Seq<(Seq<char>, Val)>, Result<Option<Val>, Fault>),
        |
            #[trigger] chosen(p) && runs_block(
                frame_model(f@->Func_0, caller@, f@->Func_1, vals(args@)),
                code.bodies@,
                code.bodies@[f@->Func_2 as int]@,
                fuel as nat,
                code.bodies@[f@->Func_2 as int]@.len(),
                p.0,
                p.1,
            ) && outcome(r) == call_result(p.1),
    decreases fuel, 2nat,
{
    match check_call(f, args, code.bodies.len()) {
        Ok(()) => {},
        Err(e) => {
            return Err(e);
        },
    }
    match f {
        Value::Func(captured, ps, body) => {
            let mut frame = call_frame(captured, caller, ps, args);
            let ghost f0 = frame@;
            proof {
                assert(bindings_view(captured@) =~= f@->Func_0);
            }
            let rb = run_block(host, code, &mut frame, &code.bodies[*body], fuel);
            proof {
                assert(chosen((frame@, stmt_outcome(rb))));
            }
            match rb {
                Ok(Some(v)) => Ok(v),
                Ok(None) => Ok(Value::Void),
                Err(e) => Err(e),
            }
        },
        _ => Err(EvalError::NotCallable(f.get_type())),
    }
}

/// Evaluates `es` from left to right; the first failure ends it.
pub fn eval_list<A: Host>(host: &mut A, code: &Code, env: &Env, es: &Vec<Expr>, fuel: u64) -> (r: Result<
    Vec<Value>,
    EvalError,
>)
    ensures
        evals_list(env@, code.bodies@, es@, fuel as nat, es@.len(), list_outcome(r)),
        r is Ok ==> r->Ok_0@.len() == es@.len(),
        es@.len() == 0 ==> r is Ok,
        fuel == 0 && es@.len() > 0 ==> r is Err && r->Err_0@ == Fault::OutOfFuel,
    decreases fuel, 1nat,
{
    let ghost nb = code.bodies@;
    let mut out: Vec<Value> = Vec::new();
    let mut i: usize = 0;
    proof {
        assert(vals(out@) =~= Seq::<Val>::empty());
    }
    while i < es.len()
        invariant
            i <= es@.len(),
            out@.len() == i,
            fuel == 0 ==> i == 0,
            nb == code.bodies@,
            evals_list(env@, nb, es@, fuel as nat, i as nat, Ok(vals(out@))),
        decreases es@.len() - i,
    {
        let ro = eval(host, code, env, &es[i], fuel);
        proof {
            assert(chosen(outcome(ro)));
            assert(chosen(Ok::<Seq<Val>, Fault>(vals(out@))));
        }
        match ro {
            Ok(v) => {
                let ghost before = out@;
                out.push(v);
                proof {
                    assert(vals(out@) =~= vals(before).push(out@[i as int]@));
                }
                i += 1;
            },
            Err(e) => {
                proof {
                    assert(evals_list(env@, nb, es@, fuel as nat, (i + 1) as nat, Err(e@)));
                    lemma_list_failure(env@, nb, es@, fuel as nat, (i + 1) as nat, es@.len(), e@);
                }
                return Err(e);
            },
        }
    }
    Ok(out)
}

/// Evaluates `e` in `env`.
pub fn eval<A: Host>(host: &mut A, code: &Code, env: &Env, e: &Expr, fuel: u64) -> (r: Result<Value, EvalError>)
    ensures
        evals(env@, code.bodies@, *e, fuel as nat, outcome(r)),
        fuel == 0 ==> r is Err && r->Err_0@ == Fault::OutOfFuel,
        fuel > 0 ==> match *e {
            Expr::Literal(v) => outcome(r) == Ok::<Val, Fault>(v@),
            Expr::Numeral(t) => match outcome(r) {
                Ok(x) => x is Num,
                Err(x) => x == Fault::ParseError(t@),
            },
            Expr::Reference(n) => outcome(r) == reference_outcome(env@, n@),
            Expr::FuncDef(ps, b) => outcome(r) == Ok::<Val, Fault>(
                Val::Func(env@, params_view(ps@), b as nat),
            ),
            Expr::Array(es) => r is Ok ==> r->Ok_0@ is Arr && r->Ok_0@->Arr_0.len() == es@.len(),
            _ => true,
        },
    decreases fuel, 0nat,
{
    if fuel == 0 {
        return Err(EvalError::OutOfFuel);
    }
    let f = fuel - 1;
    proof {
        reveal_with_fuel(evals, 2);
    }
    match e {
        Expr::Literal(v) => Ok(v.copy()),
        Expr::Numeral(text) => match host.parse(text.as_str()) {
            Some(n) => Ok(Value::Num(n)),
            None => Err(EvalError::ParseError(text.clone())),
        },
        Expr::Reference(n) => reference(env, n),
        Expr::FuncDef(ps, b) => {
            let captured = env.copy();
            let r = Value::Func(captured.vars, copy_params(ps), *b);
            proof {
                assert(r@->Func_0 =~= env@);
            }
            Ok(r)
        },
        Expr::Typecast(x0, t0) => {
            let ra = eval(host, code, env, x0, f);
            proof {
                assert(chosen(outcome(ra)));
            }
            let x = match ra {
                Ok(w) => w,
                Err(err) => {
                    return Err(err);
                },
            };
            let rb = eval(host, code, env, t0, f);
            proof {
                assert(chosen(outcome(rb)));
            }
            let y = match rb {
                Ok(w) => w,
                Err(err) => {
                    return Err(err);
                },
            };
            typecast(host, &x, &y)
        },
        Expr::TypeOf(x0) => {
            let ra = eval(host, code, env, x0, f);
            proof {
                assert(chosen(outcome(ra)));
            }
            let v = match ra {
                Ok(w) => w,
                Err(err) => {
                    return Err(err);
                },
            };
            Ok(Value::Type(v.get_type()))
        },
        Expr::CallFunc(callee, arg_exprs) => {
            let ra = eval(host, code, env, callee, f);
            proof {
                assert(chosen(outcome(ra)));
            }
            let fv = match ra {
                Ok(w) => w,
                Err(err) => {
                    return Err(err);
                },
            };
            let rl = eval_list(host, code, env, arg_exprs, f);
            proof {
                assert(chosen(list_outcome(rl)));
            }
            let args = match rl {
                Ok(w) => w,
                Err(err) => {
                    return Err(err);
                },
            };
            proof {
                if args@.len() == 0 {
                    assert(vals(args@) =~= Seq::<Val>::empty());
                }
            }
            call(host, code, env, &fv, &args, f)
        },
        Expr::Array(es) => {
            let rl = eval_list(host, code, env, es, f);
            proof {
                assert(chosen(list_outcome(rl)));
            }
            let vs = match rl {
                Ok(w) => w,
                Err(err) => {
                    return Err(err);
                },
            };
            let r = Value::Array(vs);
            proof {
                assert(r@->Arr_0 =~= vals(vs@));
            }
            Ok(r)
        },
        Expr::Index(base, idx) => {
            let ra = eval(host, code, env, base, f);
            proof {
                assert(chosen(outcome(ra)));
            }
            let x = match ra {
                Ok(w) => w,
                Err(err) => {
                    return Err(err);
                },
            };
            let rb = eval(host, code, env, idx, f);
            proof {
                assert(chosen(outcome(rb)));
            }
            let y = match rb {
                Ok(w) => w,
                Err(err) => {
                    return Err(err);
                },
            };
            index_value(host, &x, &y)
        },
        Expr::BinOp(op, l, r) => {
            let ra = eval(host, code, env, l, f);
            proof {
                assert(chosen(outcome(ra)));
            }
            let x = match ra {
                Ok(w) => w,
                Err(err) => {
                    return Err(err);
                },
            };
            let rb = eval(host, code, env, r, f);
            proof {
                assert(chosen(outcome(rb)));
            }
            let y = match rb {
                Ok(w) => w,
                Err(err) => {
                    return Err(err);
                },
            };
            binop_values(host, op, &x, &y)
        },
        Expr::Comparison(op, l, r) => {
            let ra = eval(host, code, env, l, f);
            proof {
                assert(chosen(outcome(ra)));
            }
            let x = match ra {
                Ok(w) => w,
                Err(err) => {
                    return Err(err);
                },
            };
            let rb = eval(host, code, env, r, f);
            proof {
                assert(chosen(outcome(rb)));
            }
            let y = match rb {
                Ok(w) => w,
                Err(err) => {
                    return Err(err);
                },
            };
            compare_values(host, op, &x, &y)
        },
        Expr::BoolChain(op, l, r) => {
            let ra = eval(host, code, env, l, f);
            proof {
                assert(chosen(outcome(ra)));
            }
            let x = match ra {
                Ok(w) => w,
                Err(err) => {
                    return Err(err);
                },
            };
            let rb = eval(host, code, env, r, f);
            proof {
                assert(chosen(outcome(rb)));
            }
            let y = match rb {
                Ok(w) => w,
                Err(err) => {
                    return Err(err);
                },
            };
            chain_values(op, &x, &y)
        },
        Expr::UnOp(_, x0) => {
            let ra = eval(host, code, env, x0, f);
            proof {
                assert(chosen(outcome(ra)));
            }
            let v = match ra {
                Ok(w) => w,
                Err(err) => {
                    return Err(err);
                },
            };
            negate_value(&v)
        },
        Expr::Length(x0) => {
            let ra = eval(host, code, env, x0, f);
            proof {
                assert(chosen(outcome(ra)));
            }
            let v = match ra {
                Ok(w) => w,
                Err(err) => {
                    return Err(err);
                },
            };
            length_value(host, &v)
        },
        Expr::ToUpper(x0) => {
            let ra = eval(host, code, env, x0, f);
            proof {
                assert(chosen(outcome(ra)));
            }
            let v = match ra {
                Ok(w) => w,
                Err(err) => {
                    return Err(err);
                },
            };
            upper_value(&v)
        },
        Expr::ToLower(x0) => {
            let ra = eval(host, code, env, x0, f);
            proof {
                assert(chosen(outcome(ra)));
            }
            let v = match ra {
                Ok(w) => w,
                Err(err) => {
                    return Err(err);
                },
            };
            lower_value(&v)
        },
    }
}

/// Runs `body` statement by statement until one returns.
pub fn run_block<A: Host>(
    host: &mut A,
    code: &Code,
    env: &mut Env,
    body: &Vec<Statement>,
    fuel: u64,
) -> (r: Result<Option<Value>, EvalError>)
    ensures
        runs_block(old(env)@, code.bodies@, body@, fuel as nat, body@.len(), final(env)@, stmt_outcome(r)),
    decreases fuel, 1nat,
{
    let mut i: usize = 0;
    while i < body.len()
        invariant
            i <= body@.len(),
            runs_block(old(env)@, code.bodies@, body@, fuel as nat, i as nat, env@, Ok(None)),
        decreases body@.len() - i,
    {
        let ghost e0 = env@;
        let rs = exec(host, code, env, &body[i], fuel);
        proof {
            assert(chosen((e0, Ok::<Option<Val>, Fault>(None))));
        }
        match rs {
            Ok(None) => {
                i += 1;
            },
            _ => {
                proof {
                    assert(runs_block(old(env)@, code.bodies@, body@, fuel as nat, (i + 1) as nat, env@, stmt_outcome(rs)));
                    lemma_block_stops(old(env)@, code.bodies@, body@, fuel as nat, (i + 1) as nat, body@.len(), env@, stmt_outcome(rs));
                }
                return rs;
            },
        }
    }
    Ok(None)
}

/// Runs one statement. `Some(v)` when it returned `v`. `print` and
/// `println` evaluate all their expressions before they write anything, so
/// a failure writes nothing; else they write `print_text` of the values.
pub fn exec<A: Host>(host: &mut A, code: &Code, env: &mut Env, st: &Statement, fuel: u64) -> (r: Result<
    Option<Value>,
    EvalError,
>)
    ensures
        execs(old(env)@, code.bodies@, *st, fuel as nat, final(env)@, stmt_outcome(r)),
        fuel == 0 ==> r is Err && r->Err_0@ == Fault::OutOfFuel,
    decreases fuel, 0nat,
{
    if fuel == 0 {
        return Err(EvalError::OutOfFuel);
    }
    let f = fuel - 1;
    let ghost bs = code.bodies@;
    proof {
        reveal_with_fuel(execs, 2);
    }
    match st {
        Statement::DeclareVar(n, x) => {
            if !validate_ident(n) {
                return Err(EvalError::InvalidIdentifier(n.clone()));
            }
            let rv = eval(host, code, env, x, f);
            proof {
                assert(chosen(outcome(rv)));
            }
            match rv {
                Ok(v) => {
                    env.insert(n.clone(), v);
                    Ok(None)
                },
                Err(e) => Err(e),
            }
        },
        Statement::MutateVar(op, n, x) => {
            if !validate_ident(n) {
                return Err(EvalError::InvalidIdentifier(n.clone()));
            }
            let old_value = match env.get(n) {
                Some(v) => v,
                None => {
                    return Err(EvalError::UndeclaredVariable(n.clone()));
                },
            };
            let rv = eval(host, code, env, x, f);
            proof {
                assert(chosen(outcome(rv)));
            }
            let rhs = match rv {
                Ok(v) => v,
                Err(e) => {
                    return Err(e);
                },
            };
            let new_value = match compound(op) {
                None => rhs,
                Some(o) => match compound_values(host, &o, &old_value, &rhs) {
                    Ok(v) => v,
                    Err(e) => {
                        return Err(e);
                    },
                },
            };
            proof {
                if new_value@ is Num {
                    assert(chosen(new_value@->Num_0));
                }
            }
            env.insert(n.clone(), new_value);
            Ok(None)
        },
        Statement::Expression(x) => {
            let rv = eval(host, code, env, x, f);
            proof {
                assert(chosen(outcome(rv)));
            }
            match rv {
                Ok(_) => Ok(None),
                Err(e) => Err(e),
            }
        },
        Statement::Return(x) => {
            let rv = eval(host, code, env, x, f);
            proof {
                assert(chosen(outcome(rv)));
            }
            match rv {
                Ok(v) => Ok(Some(v)),
                Err(e) => Err(e),
            }
        },
        Statement::If(first, elifs, otherwise) => {
            let ghost brs = branches_of(*first, *elifs);
            let ghost els = else_of(*otherwise);
            let rc = condition(host, code, env, &first.e, f);
            let ghost oc = choose|o: Result<Val, Fault>|
                chosen(o) && evals(env@, bs, first.e, f as nat, o) && match o {
                    Ok(Val::Bool(b)) => rc == Ok::<bool, EvalError>(b),
                    Ok(v) => rc is Err && rc->Err_0@ == Fault::ExpectedBoolean(tag_of(v)),
                    Err(y) => rc is Err && rc->Err_0@ == y,
                };
            proof {
                assert(brs[0] == *first);
            }
            let go = match rc {
                Ok(b) => b,
                Err(e) => {
                    return Err(e);
                },
            };
            if go {
                return run_block(host, code, env, &first.s, f);
            }
            let ghost mut reached: nat = 1;
            proof {
                assert forall|e2: Seq<(Seq<char>, Val)>, o2: Result<Option<Val>, Fault>|
                    #[trigger] execs_if(old(env)@, bs, brs, 1, els, f as nat, e2, o2) implies execs_if(
                        old(env)@,
                        bs,
                        brs,
                        0,
                        els,
                        f as nat,
                        e2,
                        o2,
                    ) by {
                    assert(chosen(oc));
                }
            }
            if let Some(branches) = elifs {
                let mut i: usize = 0;
                while i < branches.len()
                    invariant
                        i <= branches@.len(),
                        *elifs == Some(*branches),
                        *st == Statement::If(*first, *elifs, *otherwise),
                        els == else_of(*otherwise),
                        brs == branches_of(*first, *elifs),
                        bs == code.bodies@,
                        reached == i + 1,
                        env@ == old(env)@,
                        0 < fuel,
                        f == fuel - 1,
                        forall|e2: Seq<(Seq<char>, Val)>, o2: Result<Option<Val>, Fault>|
                            #[trigger] execs_if(old(env)@, bs, brs, reached, els, f as nat, e2, o2) ==> execs_if(
                                old(env)@,
                                bs,
                                brs,
                                0,
                                els,
                                f as nat,
                                e2,
                                o2,
                            ),
                    decreases branches@.len() - i,
                {
                    proof {
                        assert(brs[i + 1] == branches@[i as int]);
                    }
                    let rc = condition(host, code, env, &branches[i].e, f);
                    let ghost oc = choose|o: Result<Val, Fault>|
                        chosen(o) && evals(env@, bs, branches@[i as int].e, f as nat, o) && match o {
                            Ok(Val::Bool(b)) => rc == Ok::<bool, EvalError>(b),
                            Ok(v) => rc is Err && rc->Err_0@ == Fault::ExpectedBoolean(tag_of(v)),
                            Err(y) => rc is Err && rc->Err_0@ == y,
                        };
                    let c = match rc {
                        Ok(b) => b,
                        Err(e) => {
                            proof {
                                assert(chosen(oc));
                                assert(execs_if(old(env)@, bs, brs, reached, els, f as nat, env@, Err(e@)));
                            }
                            return Err(e);
                        },
                    };
                    if c {
                        let rb = run_block(host, code, env, &branches[i].s, f);
                        proof {
                            assert(chosen(oc));
                            assert(execs_if(old(env)@, bs, brs, reached, els, f as nat, env@, stmt_outcome(rb)));
                        }
                        return rb;
                    }
                    proof {
                        assert forall|e2: Seq<(Seq<char>, Val)>, o2: Result<Option<Val>, Fault>|
                            #[trigger] execs_if(old(env)@, bs, brs, reached + 1, els, f as nat, e2, o2) implies execs_if(
                                old(env)@,
                                bs,
                                brs,
                                0,
                                els,
                                f as nat,
                                e2,
                                o2,
                            ) by {
                            assert(chosen(oc));
                            assert(execs_if(old(env)@, bs, brs, reached, els, f as nat, e2, o2));
                        }
                        reached = reached + 1;
                    }
                    i += 1;
                }
            }
            proof {
                assert(reached == brs.len());
            }
            match otherwise {
                Some(body) => {
                    let rb = run_block(host, code, env, body, f);
                    proof {
                        assert(execs_if(old(env)@, bs, brs, reached, els, f as nat, env@, stmt_outcome(rb)));
                    }
                    rb
                },
                None => {
                    proof {
                        assert(execs_if(old(env)@, bs, brs, reached, els, f as nat, env@, Ok(None)));
                    }
                    Ok(None)
                },
            }
        },
        Statement::While(cond, body) => {
            let mut budget: u64 = f;
            loop
                invariant
                    budget <= f,
                    f == fuel - 1,
                    bs == code.bodies@,
                    *st == Statement::While(*cond, *body),
                    forall|e2: Seq<(Seq<char>, Val)>, o2: Result<Option<Val>, Fault>|
                        #[trigger] loops(env@, bs, *cond, body@, budget as nat, e2, o2) ==> loops(
                            old(env)@,
                            bs,
                            *cond,
                            body@,
                            f as nat,
                            e2,
                            o2,
                        ),
                decreases budget,
            {
                if budget == 0 {
                    proof {
                        assert(loops(env@, bs, *cond, body@, 0, env@, Err(Fault::OutOfFuel)));
                    }
                    return Err(EvalError::OutOfFuel);
                }
                let ghost e0 = env@;
                proof {
                    assert(forall|e2: Seq<(Seq<char>, Val)>, o2: Result<Option<Val>, Fault>|
                        #[trigger] loops(e0, bs, *cond, body@, budget as nat, e2, o2) ==> loops(
                            old(env)@,
                            bs,
                            *cond,
                            body@,
                            f as nat,
                            e2,
                            o2,
                        ));
                }
                let rc = condition(host, code, env, cond, budget);
                let ghost oc = choose|o: Result<Val, Fault>|
                    chosen(o) && evals(env@, bs, *cond, budget as nat, o) && match o {
                        Ok(Val::Bool(b)) => rc == Ok::<bool, EvalError>(b),
                        Ok(v) => rc is Err && rc->Err_0@ == Fault::ExpectedBoolean(tag_of(v)),
                        Err(y) => rc is Err && rc->Err_0@ == y,
                    };
                proof {
                    assert(chosen(oc));
                }
                let go = match rc {
                    Ok(b) => b,
                    Err(e) => {
                        proof {
                            assert(loops(e0, bs, *cond, body@, budget as nat, env@, Err(e@)));
                        }
                        return Err(e);
                    },
                };
                if !go {
                    proof {
                        assert(loops(e0, bs, *cond, body@, budget as nat, env@, Ok(None)));
                    }
                    return Ok(None);
                }
                let rb = run_block(host, code, env, body, budget);
                proof {
                    assert(chosen((env@, stmt_outcome(rb))));
                }
                match rb {
                    Ok(None) => {},
                    _ => {
                        proof {
                            assert(loops(e0, bs, *cond, body@, budget as nat, env@, stmt_outcome(rb)));
                        }
                        return rb;
                    },
                }
                let ghost b0 = budget;
                budget -= 1;
                proof {
                    assert forall|e2: Seq<(Seq<char>, Val)>, o2: Result<Option<Val>, Fault>|
                        #[trigger] loops(env@, bs, *cond, body@, budget as nat, e2, o2) implies loops(
                            old(env)@,
                            bs,
                            *cond,
                            body@,
                            f as nat,
                            e2,
                            o2,
                        ) by {
                        assert(chosen(oc));
                        assert(chosen((env@, Ok::<Option<Val>, Fault>(None))));
                        assert((b0 - 1) as nat == budget as nat);
                        assert(loops(e0, bs, *cond, body@, b0 as nat, e2, o2));
                    }
                }
            }
        },
        Statement::Print(es) => {
            let rl = eval_list(host, code, env, es, f);
            proof {
                assert(chosen(list_outcome(rl)));
            }
            match rl {
                Ok(vs) => {
                    let text = print_text(&*host, &vs, false);
                    host.write(text.as_str());
                    Ok(None)
                },
                Err(e) => Err(e),
            }
        },
        Statement::Println(es) => {
            let rl = eval_list(host, code, env, es, f);
            proof {
                assert(chosen(list_outcome(rl)));
            }
            match rl {
                Ok(vs) => {
                    let text = print_text(&*host, &vs, true);
                    host.write(text.as_str());
                    Ok(None)
                },
                Err(e) => Err(e),
            }
        },
        Statement::Exit(x) => {
            let rv = eval(host, code, env, x, f);
            proof {
                assert(chosen(outcome(rv)));
            }
            match rv {
                Ok(Value::Num(n)) => Err(EvalError::Exit(host.status(n))),
                Ok(v) => Err(EvalError::ExitNotNumber(v.get_type())),
                Err(e) => Err(e),
            }
        },
    }
}

/// Evaluates a condition, which must be a boolean.
pub fn condition<A: Host>(host: &mut A, code: &Code, env: &Env, e: &Expr, fuel: u64) -> (r: Result<bool, EvalError>)
    ensures
        fuel == 0 ==> r is Err && r->Err_0@ == Fault::OutOfFuel,
        exists|o: Result<Val, Fault>|
            #[trigger] chosen(o) && evals(env@, code.bodies@, *e, fuel as nat, o) && match o {
                Ok(Val::Bool(b)) => r == Ok::<bool, EvalError>(b),
                Ok(v) => r is Err && r->Err_0@ == Fault::ExpectedBoolean(tag_of(v)),
                Err(y) => r is Err && r->Err_0@ == y,
            },
    decreases fuel, 1nat,
{
    let rv = eval(host, code, env, e, fuel);
    proof {
        assert(chosen(outcome(rv)));
    }
    let v = match rv {
        Ok(v) => v,
        Err(err) => {
            return Err(err);
        },
    };
    match v {
        Value::Boolean(b) => Ok(b),
        _ => Err(EvalError::ExpectedBoolean(v.get_type())),
    }
}

/// Strings as values.
pub open spec fn string_vals(s: Seq<String>) -> Seq<Val> {
    Seq::new(s.len(), |i: int| Val::Str(s[i]@))
}

/// The environment a script starts in: `ARGV` bound to its arguments.
pub fn initial_env(arguments: &Vec<String>) -> (r: Env)
    ensures
        r@ == seq![("ARGV"@, Val::Arr(string_vals(arguments@)))],
{
    let mut vs: Vec<Value> = Vec::new();
    let mut i: usize = 0;
    while i < arguments.len()
        invariant
            i <= arguments@.len(),
            vs@.len() == i,
            forall|j: int| 0 <= j < i ==> #[trigger] vs@[j]@ == Val::Str(arguments@[j]@),
        decreases arguments@.len() - i,
    {
        vs.push(Value::String(arguments[i].clone()));
        i += 1;
    }
    let mut env = Env::new();
    let argv = Value::Array(vs);
    proof {
        let a = argv@->Arr_0;
        let b = string_vals(arguments@);
        assert forall|j: int| 0 <= j < a.len() implies a[j] == b[j] by {
            assert(vs@[j]@ == Val::Str(arguments@[j]@));
        }
        assert(a =~= b);
    }
    env.vars.push((owned("ARGV"), argv));
    proof {
        assert(env@ =~= seq![("ARGV"@, argv@)]);
    }
    env
}

/// The model of the outcome of a run.
pub open spec fn run_outcome(r: Result<(), EvalError>) -> Result<(), Fault> {
    match r {
        Ok(_) => Ok(()),
        Err(e) => Err(e@),
    }
}

/// Runs a script's statements in order in `env`; the first failure, or an
/// exit, ends the run. A `return` at the top level ends nothing.
pub fn run_program<A: Host>(
    host: &mut A,
    code: &Code,
    env: &mut Env,
    main: &Vec<Statement>,
    fuel: u64,
) -> (r: Result<(), EvalError>)
    ensures
        runs_program(old(env)@, code.bodies@, main@, fuel as nat, main@.len(), final(env)@, run_outcome(r)),
{
    let mut i: usize = 0;
    while i < main.len()
        invariant
            i <= main@.len(),
            runs_program(old(env)@, code.bodies@, main@, fuel as nat, i as nat, env@, Ok(())),
        decreases main@.len() - i,
    {
        let ghost e0 = env@;
        let rs = exec(host, code, env, &main[i], fuel);
        proof {
            assert(chosen((e0, Ok::<(), Fault>(()))));
            assert(chosen((env@, stmt_outcome(rs))));
        }
        match rs {
            Ok(_) => {
                i += 1;
            },
            Err(e) => {
                proof {
                    assert(runs_program(old(env)@, code.bodies@, main@, fuel as nat, (i + 1) as nat, env@, Err(e@)));
                    lemma_program_stops(old(env)@, code.bodies@, main@, fuel as nat, (i + 1) as nat, main@.len(), env@, e@);
                }
                return Err(e);
            },
        }
    }
    Ok(())
}

/// How a line typed at the prompt went.
#[derive(Debug, PartialEq)]
pub enum LineOutcome {
    /// A statement ran.
    Done,
    /// An expression gave this value.
    Value(Value),
    /// The line does not parse.
    Syntax(crate::parser::SyntaxError),
    /// The line failed, or asked to exit.
    Failed(EvalError),
}

/// What running the parsed line `l` from `env` may give, with the
/// environment `env2` the session keeps: a statement's new environment when
/// it succeeds, else the environment as it was.
pub open spec fn line_rel(
    env: Seq<(Seq<char>, Val)>,
    bs: Seq<Vec<Statement>>,
    l: Line,
    fuel: nat,
    env2: Seq<(Seq<char>, Val)>,
    r: LineOutcome,
) -> bool {
    match l {
        Line::Statement(st) => exists|q: (Seq<(Seq<char>, Val)>, Result<Option<Val>, Fault>)|
            #[trigger] chosen(q) && execs(env, bs, st, fuel, q.0, q.1) && match q.1 {
                Ok(_) => r is Done && env2 == q.0,
                Err(y) => r is Failed && r->Failed_0@ == y && env2 == env,
            },
        Line::Expression(e) => env2 == env && exists|o: Result<Val, Fault>|
            #[trigger] chosen(o) && evals(env, bs, e, fuel, o) && match o {
                Ok(v) => r is Value && r->Value_0@ == v,
                Err(y) => r is Failed && r->Failed_0@ == y,
            },
    }
}

/// Runs a parsed line against the session's `env`; see `line_rel`.
pub fn run_parsed<A: Host>(host: &mut A, code: &Code, env: &mut Env, l: &Line, fuel: u64) -> (r: LineOutcome)
    ensures
        line_rel(old(env)@, code.bodies@, *l, fuel as nat, final(env)@, r),
{
    match l {
        Line::Statement(st) => {
            let saved = env.copy();
            let rs = exec(host, code, env, st, fuel);
            proof {
                assert(chosen((env@, stmt_outcome(rs))));
            }
            match rs {
                Ok(_) => LineOutcome::Done,
                Err(e) => {
                    *env = saved;
                    LineOutcome::Failed(e)
                },
            }
        },
        Line::Expression(e) => {
            let rv = eval(host, code, env, e, fuel);
            proof {
                assert(chosen(outcome(rv)));
            }
            match rv {
                Ok(v) => LineOutcome::Value(v),
                Err(err) => LineOutcome::Failed(err),
            }
        },
    }
}

/// Runs one line typed at the prompt against the session's `env`: the line
/// that `single_line` parses, run by `run_parsed`, or `Syntax` when it does
/// not parse.
pub fn run_line<A: Host>(host: &mut A, code: &mut Code, env: &mut Env, text: &str, fuel: u64) -> (r:
    LineOutcome)
    ensures
        crate::parser::grows(old(code).bodies@, final(code).bodies@),
        match r {
            LineOutcome::Syntax(_) => final(env)@ == old(env)@,
            _ => exists|l: Line|
                #[trigger] chosen(l) && line_rel(old(env)@, final(code).bodies@, l, fuel as nat, final(env)@, r),
        },
{
    match crate::parser::single_line(code, text) {
        Err(e) => LineOutcome::Syntax(e),
        Ok(l) => {
            let r = run_parsed(host, code, env, &l, fuel);
            proof {
                assert(chosen(l));
            }
            r
        },
    }
}

} // verus!
