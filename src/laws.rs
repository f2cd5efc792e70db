//! Laws of the language that relate its rules to one another.
use vstd::prelude::*;
use crate::ast::valid_ident;
use crate::env::{lemma_lookup_concat, lookup};
use crate::error::Fault;
use crate::ast::{Expr, Statement};
use crate::eval::{
    bound_params, call_check, evals, execs, frame_model, leaf_outcome, loops, reference_outcome,
    runs_block,
};
use crate::ops::BoolLogic;
use crate::value::{Tag, Val, Value, tag_of};

verus! {

/// A numeric literal evaluates to itself, bit for bit.
pub proof fn law_numeric_literal(env: Seq<(Seq<char>, Val)>, bs: Seq<Vec<Statement>>, n: u64, fuel: nat, out: Result<Val, Fault>)
    requires
        fuel > 0,
        evals(env, bs, Expr::Literal(Value::Num(n)), fuel, out),
    ensures
        out == Ok::<Val, Fault>(Val::Num(n)),
{
}

/// Evaluating a variable that no binding names fails with
/// `UndefinedVariable`, whatever else the environment holds.
pub proof fn law_unbound_variable(
    env: Seq<(Seq<char>, Val)>,
    bs: Seq<Vec<Statement>>,
    name: String,
    fuel: nat,
    out: Result<Val, Fault>,
)
    requires
        fuel > 0,
        valid_ident(name@),
        lookup(env, name@) is None,
        evals(env, bs, Expr::Reference(name), fuel, out),
    ensures
        out == Err::<Val, Fault>(Fault::UndefinedVariable(name@)),
{
}

/// A boolean connective evaluates its right operand even when the left one
/// decides the result: when the right operand fails, so does the whole.
pub proof fn law_connective_evaluates_right(
    env: Seq<(Seq<char>, Val)>,
    bs: Seq<Vec<Statement>>,
    op: BoolLogic,
    left: bool,
    right: Expr,
    x: Fault,
    fuel: nat,
    out: Result<Val, Fault>,
)
    requires
        fuel > 1,
        leaf_outcome(env, right) == Some(Err::<Val, Fault>(x)),
        evals(
            env,
            bs,
            Expr::BoolChain(op, Box::new(Expr::Literal(Value::Boolean(left))), Box::new(right)),
            fuel,
            out,
        ),
    ensures
        out == Err::<Val, Fault>(x),
{
    reveal_with_fuel(evals, 3);
}

/// Reading a variable that no binding names fails with `UndefinedVariable`,
/// whatever else the environment holds.
pub proof fn law_unbound_reference(s: Seq<(Seq<char>, Val)>, n: Seq<char>)
    requires
        valid_ident(n),
        lookup(s, n) is None,
    ensures
        reference_outcome(s, n) == Err::<Val, Fault>(Fault::UndefinedVariable(n)),
{
}

/// In the frame of a call, a binding of the caller wins over a binding the
/// closure captured, and a parameter wins over both.
pub proof fn law_call_frame_precedence(
    captured: Seq<(Seq<char>, Val)>,
    caller: Seq<(Seq<char>, Val)>,
    bound: Seq<(Seq<char>, Val)>,
    k: Seq<char>,
)
    ensures
        lookup(captured + caller + bound, k) == (match lookup(bound, k) {
            Some(v) => Some(v),
            None => match lookup(caller, k) {
                Some(v) => Some(v),
                None => lookup(captured, k),
            },
        }),
{
    lemma_lookup_concat(captured + caller, bound, k);
    lemma_lookup_concat(captured, caller, k);
}

/// A call whose argument count differs from the parameter count fails
/// with both counts, before any argument type is looked at.
pub proof fn law_arity_first(
    captured: Seq<(Seq<char>, Val)>,
    ps: Seq<(Seq<char>, Tag)>,
    body: nat,
    args: Seq<Val>,
    n_bodies: nat,
)
    requires
        ps.len() != args.len(),
    ensures
        call_check(Val::Func(captured, ps, body), args, n_bodies) == Some(
            Fault::WrongArgCount(ps.len(), args.len()),
        ),
{
}

/// Parameters bind in order, a later parameter of the same name winning.
pub proof fn law_params_bind_in_order(ps: Seq<(Seq<char>, Tag)>, args: Seq<Val>, i: int)
    requires
        ps.len() == args.len(),
        0 <= i < ps.len(),
        forall|j: int| i < j < ps.len() ==> #[trigger] ps[j].0 != ps[i].0,
    ensures
        lookup(bound_params(ps, args), ps[i].0) == Some(args[i]),
    decreases ps.len(),
{
    let b = bound_params(ps, args);
    if i < ps.len() - 1 {
        let ps2 = ps.drop_last();
        let args2 = args.drop_last();
        assert(b.drop_last() =~= bound_params(ps2, args2));
        law_params_bind_in_order(ps2, args2, i);
    }
}

/// A loop whose condition evaluates to `true` whenever it is evaluated,
/// and whose body is empty, never ends by itself: it runs until the fuel
/// is spent, and leaves the environment as it was.
pub proof fn law_loop_without_end(
    env: Seq<(Seq<char>, Val)>,
    bs: Seq<Vec<Statement>>,
    c: Expr,
    b: nat,
    env2: Seq<(Seq<char>, Val)>,
    out: Result<Option<Val>, Fault>,
)
    requires
        forall|k: nat, o: Result<Val, Fault>|
            k > 0 && #[trigger] evals(env, bs, c, k, o) ==> o == Ok::<Val, Fault>(Val::Bool(true)),
        loops(env, bs, c, Seq::empty(), b, env2, out),
    ensures
        out == Err::<Option<Val>, Fault>(Fault::OutOfFuel),
        env2 == env,
    decreases b,
{
    if b > 0 {
        let o = choose|o: Result<Val, Fault>|
            #[trigger] crate::eval::chosen(o) && evals(env, bs, c, b, o) && match o {
                Err(y) => env2 == env && out == Err::<Option<Val>, Fault>(y),
                Ok(Val::Bool(t)) => if t {
                    exists|p: (Seq<(Seq<char>, Val)>, Result<Option<Val>, Fault>)|
                        #[trigger] crate::eval::chosen(p) && runs_block(env, bs, Seq::empty(), b, 0, p.0, p.1)
                            && if p.1 == Ok::<Option<Val>, Fault>(None) {
                            loops(p.0, bs, c, Seq::empty(), (b - 1) as nat, env2, out)
                        } else {
                            env2 == p.0 && out == p.1
                        }
                } else {
                    env2 == env && out == Ok::<Option<Val>, Fault>(None)
                },
                Ok(v) => env2 == env && out == Err::<Option<Val>, Fault>(Fault::ExpectedBoolean(tag_of(v))),
            };
        assert(o == Ok::<Val, Fault>(Val::Bool(true)));
        let p = choose|p: (Seq<(Seq<char>, Val)>, Result<Option<Val>, Fault>)|
            #[trigger] crate::eval::chosen(p) && runs_block(env, bs, Seq::empty(), b, 0, p.0, p.1)
                && if p.1 == Ok::<Option<Val>, Fault>(None) {
                loops(p.0, bs, c, Seq::empty(), (b - 1) as nat, env2, out)
            } else {
                env2 == p.0 && out == p.1
            };
        assert(p.0 == env && p.1 == Ok::<Option<Val>, Fault>(None));
        law_loop_without_end(env, bs, c, (b - 1) as nat, env2, out);
    }
}

/// A closure without parameters whose body returns the variable `x` gives
/// the caller's binding of `x` when the caller has one, whatever the closure
/// captured: a caller's binding wins over a captured one.
pub proof fn law_closure_sees_caller(
    caller: Seq<(Seq<char>, Val)>,
    bs: Seq<Vec<Statement>>,
    captured: Seq<(Seq<char>, Val)>,
    body: nat,
    x: String,
    v: Val,
    fuel: nat,
    out: Result<Option<Val>, Fault>,
    env2: Seq<(Seq<char>, Val)>,
)
    requires
        fuel > 1,
        body < bs.len(),
        bs[body as int]@.len() == 1,
        bs[body as int]@[0] == Statement::Return(Expr::Reference(x)),
        valid_ident(x@),
        lookup(caller, x@) == Some(v),
        runs_block(
            frame_model(captured, caller, Seq::empty(), Seq::empty()),
            bs,
            bs[body as int]@,
            fuel,
            1,
            env2,
            out,
        ),
    ensures
        out == Ok::<Option<Val>, Fault>(Some(v)),
{
    let frame = frame_model(captured, caller, Seq::empty(), Seq::empty());
    assert(frame == captured + caller);
    lemma_lookup_concat(captured, caller, x@);
    let st = bs[body as int]@[0];
    let p = choose|p: (Seq<(Seq<char>, Val)>, Result<Option<Val>, Fault>)|
        #[trigger] crate::eval::chosen(p) && runs_block(frame, bs, bs[body as int]@, fuel, 0, p.0, p.1)
            && if p.1 == Ok::<Option<Val>, Fault>(None) {
            execs(p.0, bs, st, fuel, env2, out)
        } else {
            env2 == p.0 && out == p.1
        };
    assert(p.0 == frame && p.1 == Ok::<Option<Val>, Fault>(None));
    assert(execs(frame, bs, st, fuel, env2, out));
    let f = (fuel - 1) as nat;
    assert(crate::eval::evals_then(frame, bs, Expr::Reference(x), f, env2, out, |w: Val| Ok(Some(w))));
    let o = choose|o: Result<Val, Fault>|
        #[trigger] crate::eval::chosen(o) && evals(frame, bs, Expr::Reference(x), f, o) && out == match o {
            Ok(w) => Ok::<Option<Val>, Fault>(Some(w)),
            Err(y) => Err(y),
        };
    assert(o == reference_outcome(frame, x@));
}

} // verus!
