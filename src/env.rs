//! Variable environments: a list of bindings in which the last binding of a
//! name is the one in force.
use vstd::prelude::*;
use crate::value::{Value, Val, bindings_view, copy_bindings};

verus! {

/// The value bound to `k` in the model `s`: the one of its last binding.
pub open spec fn lookup(s: Seq<(Seq<char>, Val)>, k: Seq<char>) -> Option<Val>
    decreases s.len(),
{
    if s.len() == 0 {
        None
    } else if s.last().0 == k {
        Some(s.last().1)
    } else {
        lookup(s.drop_last(), k)
    }
}

/// Binding `k` in a frame made of `a` followed by `b` is its binding in `b`
/// if `b` has one, else its binding in `a`.
pub proof fn lemma_lookup_concat(a: Seq<(Seq<char>, Val)>, b: Seq<(Seq<char>, Val)>, k: Seq<char>)
    ensures
        lookup(a + b, k) == (match lookup(b, k) {
            Some(v) => Some(v),
            None => lookup(a, k),
        }),
    decreases b.len(),
{
    if b.len() == 0 {
        assert(a + b =~= a);
    } else {
        assert((a + b).drop_last() =~= a + b.drop_last());
        assert((a + b).last() == b.last());
        lemma_lookup_concat(a, b.drop_last(), k);
    }
}

/// Replacing the last binding of `k` changes what `k` is bound to, and
/// nothing else.
pub proof fn lemma_lookup_replace_last(s: Seq<(Seq<char>, Val)>, i: int, k: Seq<char>, v: Val, k2: Seq<char>)
    requires
        0 <= i < s.len(),
        s[i].0 == k,
        forall|j: int| i < j < s.len() ==> #[trigger] s[j].0 != k,
    ensures
        lookup(s.update(i, (k, v)), k2) == (if k2 == k {
            Some(v)
        } else {
            lookup(s, k2)
        }),
    decreases s.len(),
{
    let t = s.update(i, (k, v));
    if i == s.len() - 1 {
        assert(t.drop_last() =~= s.drop_last());
    } else {
        assert(t.drop_last() =~= s.drop_last().update(i, (k, v)));
        lemma_lookup_replace_last(s.drop_last(), i, k, v, k2);
    }
}

/// The position of the last binding of `k` in `s`.
pub open spec fn last_with(s: Seq<(Seq<char>, Val)>, k: Seq<char>) -> Option<int>
    decreases s.len(),
{
    if s.len() == 0 {
        None
    } else if s.last().0 == k {
        Some(s.len() - 1)
    } else {
        last_with(s.drop_last(), k)
    }
}

/// `s` with `k` bound to `v`: its last binding of `k` replaced, or a new
/// binding at the end if it has none.
pub open spec fn insert_model(s: Seq<(Seq<char>, Val)>, k: Seq<char>, v: Val) -> Seq<(Seq<char>, Val)> {
    match last_with(s, k) {
        Some(i) => s.update(i, (k, v)),
        None => s.push((k, v)),
    }
}

proof fn lemma_last_with(s: Seq<(Seq<char>, Val)>, k: Seq<char>, f: Option<usize>)
    requires
        match f {
            Some(i) => {
                &&& i < s.len()
                &&& s[i as int].0 == k
                &&& forall|j: int| i < j < s.len() ==> #[trigger] s[j].0 != k
            },
            None => forall|j: int| 0 <= j < s.len() ==> #[trigger] s[j].0 != k,
        },
    ensures
        last_with(s, k) == match f {
            Some(i) => Some(i as int),
            None => None::<int>,
        },
    decreases s.len(),
{
    if s.len() > 0 {
        match f {
            Some(i) => {
                if i < s.len() - 1 {
                    lemma_last_with(s.drop_last(), k, f);
                }
            },
            None => {
                lemma_last_with(s.drop_last(), k, f);
            },
        }
    }
}

/// A variable environment.
#[derive(Debug, PartialEq)]
pub struct Env {
    pub vars: Vec<(String, Value)>,
}

impl Env {
    pub open spec fn view(&self) -> Seq<(Seq<char>, Val)> {
        bindings_view(self.vars@)
    }

    /// The environment with no bindings.
    pub fn new() -> (r: Env)
        ensures
            r@ == Seq::<(Seq<char>, Val)>::empty(),
    {
        let r = Env { vars: Vec::new() };
        assert(r@ =~= Seq::<(Seq<char>, Val)>::empty());
        r
    }

    /// The position of the last binding of `name`.
    fn find(&self, name: &String) -> (r: Option<usize>)
        ensures
            match r {
                Some(i) => {
                    &&& i < self@.len()
                    &&& self@[i as int].0 == name@
                    &&& forall|j: int| i < j < self@.len() ==> #[trigger] self@[j].0 != name@
                },
                None => forall|j: int| 0 <= j < self@.len() ==> #[trigger] self@[j].0 != name@,
            },
    {
        let mut i: usize = self.vars.len();
        while i > 0
            invariant
                i <= self@.len(),
                self@.len() == self.vars@.len(),
                forall|j: int| i <= j < self@.len() ==> #[trigger] self@[j].0 != name@,
            decreases i,
        {
            if self.vars[i - 1].0 == *name {
                return Some(i - 1);
            }
            i -= 1;
        }
        None
    }

    /// A copy of the value bound to `name`.
    pub fn get(&self, name: &String) -> (r: Option<Value>)
        ensures
            match r {
                Some(v) => lookup(self@, name@) == Some(v@),
                None => lookup(self@, name@) is None,
            },
    {
        let f = self.find(name);
        proof {
            lemma_lookup_found(self@, name@, f);
        }
        match f {
            Some(i) => Some(self.vars[i].1.copy()),
            None => None,
        }
    }

    /// Binds `name` to `v`, replacing its binding if it has one.
    pub fn insert(&mut self, name: String, v: Value)
        ensures
            final(self)@ == insert_model(old(self)@, name@, v@),
            forall|k: Seq<char>|
                lookup(final(self)@, k) == (if k == name@ {
                    Some(v@)
                } else {
                    lookup(old(self)@, k)
                }),
    {
        let ghost nm = name@;
        let ghost vv = v@;
        let f = self.find(&name);
        proof {
            lemma_last_with(self@, nm, f);
        }
        match f {
            Some(i) => {
                self.vars.set(i, (name, v));
                proof {
                    assert(self@ =~= old(self)@.update(i as int, (nm, vv)));
                    assert forall|k: Seq<char>|
                        lookup(self@, k) == (if k == nm {
                            Some(vv)
                        } else {
                            lookup(old(self)@, k)
                        }) by {
                        lemma_lookup_replace_last(old(self)@, i as int, nm, vv, k);
                    }
                }
            },
            None => {
                self.vars.push((name, v));
                proof {
                    assert(self@ =~= old(self)@.push((nm, vv)));
                    assert forall|k: Seq<char>|
                        lookup(self@, k) == (if k == nm {
                            Some(vv)
                        } else {
                            lookup(old(self)@, k)
                        }) by {
                        assert(self@.drop_last() =~= old(self)@);
                    }
                }
            },
        }
    }

    /// A copy of this environment.
    pub fn copy(&self) -> (r: Env)
        ensures
            r@ == self@,
    {
        Env { vars: copy_bindings(&self.vars) }
    }

    /// The frame of a call: the bindings `captured` by a closure, then those
    /// of the caller, so that a caller's binding of a name wins over a
    /// captured one.
    pub fn frame(captured: &Vec<(String, Value)>, caller: &Env) -> (r: Env)
        ensures
            r@ == bindings_view(captured@) + caller@,
            forall|k: Seq<char>|
                lookup(r@, k) == (match lookup(caller@, k) {
                    Some(v) => Some(v),
                    None => lookup(bindings_view(captured@), k),
                }),
    {
        let mut out = copy_bindings(captured);
        let mut i: usize = 0;
        while i < caller.vars.len()
            invariant
                i <= caller.vars@.len(),
                bindings_view(out@) == bindings_view(captured@) + caller@.subrange(0, i as int),
            decreases caller.vars@.len() - i,
        {
            let ghost before = out@;
            out.push((caller.vars[i].0.clone(), caller.vars[i].1.copy()));
            proof {
                assert(bindings_view(out@) =~= bindings_view(before).push(caller@[i as int]));
                assert(caller@.subrange(0, i + 1) =~= caller@.subrange(0, i as int).push(
                    caller@[i as int],
                ));
            }
            i += 1;
        }
        let r = Env { vars: out };
        proof {
            assert(caller@.subrange(0, caller@.len() as int) =~= caller@);
            assert forall|k: Seq<char>|
                lookup(r@, k) == (match lookup(caller@, k) {
                    Some(v) => Some(v),
                    None => lookup(bindings_view(captured@), k),
                }) by {
                lemma_lookup_concat(bindings_view(captured@), caller@, k);
            }
        }
        r
    }
}

proof fn lemma_lookup_found(s: Seq<(Seq<char>, Val)>, k: Seq<char>, f: Option<usize>)
    requires
        match f {
            Some(i) => {
                &&& i < s.len()
                &&& s[i as int].0 == k
                &&& forall|j: int| i < j < s.len() ==> #[trigger] s[j].0 != k
            },
            None => forall|j: int| 0 <= j < s.len() ==> #[trigger] s[j].0 != k,
        },
    ensures
        match f {
            Some(i) => lookup(s, k) == Some(s[i as int].1),
            None => lookup(s, k) is None,
        },
    decreases s.len(),
{
    if s.len() > 0 {
        match f {
            Some(i) => {
                if i < s.len() - 1 {
                    lemma_lookup_found(s.drop_last(), k, f);
                }
            },
            None => {
                lemma_lookup_found(s.drop_last(), k, f);
            },
        }
    }
}

} // verus!
