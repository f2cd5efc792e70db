//! Runtime values, type tags and their mathematical models.
use vstd::prelude::*;

verus! {

/// The runtime type of a value.
#[derive(Debug, PartialEq)]
pub enum Type {
    Num,
    String,
    Boolean,
    Array,
    Type,
    Void,
    Func(Vec<Type>),
}

/// Model of a `Type`.
pub enum Tag {
    Num,
    Str,
    Bool,
    Arr,
    Ty,
    Void,
    Func(Seq<Tag>),
}

/// A value of the language. A number is held as the 64 bits of an IEEE
/// double; what those bits mean is left to the `Arith` that runs the program.
#[derive(Debug, PartialEq)]
pub enum Value {
    Num(u64),
    String(String),
    Boolean(bool),
    Array(Vec<Value>),
    Type(Type),
    Void,
    /// A closure: the bindings it captured, its parameters, and the index of
    /// its body in the code table.
    Func(Vec<(String, Value)>, Vec<(String, Type)>, usize),
}

/// Model of a `Value`.
pub enum Val {
    Num(u64),
    Str(Seq<char>),
    Bool(bool),
    Arr(Seq<Val>),
    Ty(Tag),
    Void,
    Func(Seq<(Seq<char>, Val)>, Seq<(Seq<char>, Tag)>, nat),
}

impl Type {
    pub open spec fn view(self) -> Tag
        decreases self,
    {
        match self {
            Type::Num => Tag::Num,
            Type::String => Tag::Str,
            Type::Boolean => Tag::Bool,
            Type::Array => Tag::Arr,
            Type::Type => Tag::Ty,
            Type::Void => Tag::Void,
            Type::Func(ps) => Tag::Func(
                Seq::new(
                    ps@.len(),
                    |i: int|
                        if 0 <= i < ps@.len() {
                            ps@[i].view()
                        } else {
                            Tag::Void
                        },
                ),
            ),
        }
    }

    /// A copy of this type tag.
    pub fn copy(&self) -> (r: Type)
        ensures
            r@ == self@,
        decreases self,
    {
        match self {
            Type::Num => Type::Num,
            Type::String => Type::String,
            Type::Boolean => Type::Boolean,
            Type::Array => Type::Array,
            Type::Type => Type::Type,
            Type::Void => Type::Void,
            Type::Func(ps) => {
                let mut out: Vec<Type> = Vec::new();
                let mut i: usize = 0;
                while i < ps.len()
                    invariant
                        i <= ps@.len(),
                        *self == Type::Func(*ps),
                        out@.len() == i,
                        forall|j: int| 0 <= j < i ==> #[trigger] out@[j]@ == ps@[j]@,
                    decreases ps@.len() - i,
                {
                    proof {
                        assert(decreases_to!(*self => self->Func_0));
                        assert(decreases_to!(self->Func_0 => self->Func_0[i as int]));
                    }
                    let t = ps[i].copy();
                    out.push(t);
                    i += 1;
                }
                let r = Type::Func(out);
                proof {
                    let a = r@->Func_0;
                    let b = self@->Func_0;
                    assert forall|j: int| 0 <= j < a.len() implies a[j] == b[j] by {
                        assert(out@[j]@ == ps@[j]@);
                    }
                    assert(a =~= b);
                }
                r
            },
        }
    }

    /// Whether two type tags are the same.
    pub fn same(&self, other: &Type) -> (r: bool)
        ensures
            r == (self@ == other@),
        decreases self,
    {
        match (self, other) {
            (Type::Num, Type::Num) => true,
            (Type::String, Type::String) => true,
            (Type::Boolean, Type::Boolean) => true,
            (Type::Array, Type::Array) => true,
            (Type::Type, Type::Type) => true,
            (Type::Void, Type::Void) => true,
            (Type::Func(a), Type::Func(b)) => {
                if a.len() != b.len() {
                    proof {
                        assert(self@->Func_0.len() != other@->Func_0.len());
                    }
                    return false;
                }
                let mut i: usize = 0;
                while i < a.len()
                    invariant
                        i <= a@.len(),
                        a@.len() == b@.len(),
                        *self == Type::Func(*a),
                        *other == Type::Func(*b),
                        forall|j: int| 0 <= j < i ==> #[trigger] a@[j]@ == b@[j]@,
                    decreases a@.len() - i,
                {
                    proof {
                        assert(decreases_to!(*self => self->Func_0));
                        assert(decreases_to!(self->Func_0 => self->Func_0[i as int]));
                    }
                    if !a[i].same(&b[i]) {
                        proof {
                            assert(self@->Func_0[i as int] != other@->Func_0[i as int]);
                        }
                        return false;
                    }
                    i += 1;
                }
                proof {
                    let x = self@->Func_0;
                    let y = other@->Func_0;
                    assert forall|j: int| 0 <= j < x.len() implies x[j] == y[j] by {
                        assert(a@[j]@ == b@[j]@);
                    }
                    assert(x =~= y);
                }
                true
            },
            _ => false,
        }
    }
}

/// The model of a list of bindings.
pub open spec fn bindings_view(s: Seq<(String, Value)>) -> Seq<(Seq<char>, Val)>
    decreases s,
{
    Seq::new(
        s.len(),
        |i: int|
            if 0 <= i < s.len() {
                (s[i].0@, s[i].1.view())
            } else {
                (Seq::empty(), Val::Void)
            },
    )
}

/// The model of a parameter list.
pub open spec fn params_view(s: Seq<(String, Type)>) -> Seq<(Seq<char>, Tag)> {
    Seq::new(s.len(), |i: int| (s[i].0@, s[i].1@))
}

/// The types of the parameters of a parameter list model.
pub open spec fn param_tags(ps: Seq<(Seq<char>, Tag)>) -> Seq<Tag> {
    Seq::new(ps.len(), |i: int| ps[i].1)
}

/// The tag of a value, on models.
pub open spec fn tag_of(v: Val) -> Tag {
    match v {
        Val::Num(_) => Tag::Num,
        Val::Str(_) => Tag::Str,
        Val::Bool(_) => Tag::Bool,
        Val::Arr(_) => Tag::Arr,
        Val::Ty(_) => Tag::Ty,
        Val::Void => Tag::Void,
        Val::Func(_, ps, _) => Tag::Func(param_tags(ps)),
    }
}

impl Value {
    pub open spec fn view(self) -> Val
        decreases self,
    {
        match self {
            Value::Num(n) => Val::Num(n),
            Value::String(s) => Val::Str(s@),
            Value::Boolean(b) => Val::Bool(b),
            Value::Array(vs) => Val::Arr(
                Seq::new(
                    vs@.len(),
                    |i: int|
                        if 0 <= i < vs@.len() {
                            vs@[i].view()
                        } else {
                            Val::Void
                        },
                ),
            ),
            Value::Type(t) => Val::Ty(t@),
            Value::Void => Val::Void,
            Value::Func(env, ps, body) => Val::Func(
                Seq::new(
                    env@.len(),
                    |i: int|
                        if 0 <= i < env@.len() {
                            (env@[i].0@, env@[i].1.view())
                        } else {
                            (Seq::empty(), Val::Void)
                        },
                ),
                params_view(ps@),
                body as nat,
            ),
        }
    }

    /// The type tag of this value.
    pub fn get_type(&self) -> (r: Type)
        ensures
            r@ == tag_of(self@),
    {
        match self {
            Value::Num(_) => Type::Num,
            Value::String(_) => Type::String,
            Value::Boolean(_) => Type::Boolean,
            Value::Array(_) => Type::Array,
            Value::Type(_) => Type::Type,
            Value::Void => Type::Void,
            Value::Func(_, ps, _) => {
                let mut out: Vec<Type> = Vec::new();
                let mut i: usize = 0;
                while i < ps.len()
                    invariant
                        i <= ps@.len(),
                        out@.len() == i,
                        forall|j: int| 0 <= j < i ==> #[trigger] out@[j]@ == ps@[j].1@,
                    decreases ps@.len() - i,
                {
                    out.push(ps[i].1.copy());
                    i += 1;
                }
                let r = Type::Func(out);
                proof {
                    let a = r@->Func_0;
                    let b = tag_of(self@)->Func_0;
                    assert forall|j: int| 0 <= j < a.len() implies a[j] == b[j] by {
                        assert(out@[j]@ == ps@[j].1@);
                    }
                    assert(a =~= b);
                }
                r
            },
        }
    }

    /// A copy of this value.
    pub fn copy(&self) -> (r: Value)
        ensures
            r@ == self@,
        decreases self,
    {
        match self {
            Value::Num(n) => Value::Num(*n),
            Value::String(s) => Value::String(s.clone()),
            Value::Boolean(b) => Value::Boolean(*b),
            Value::Array(vs) => {
                let mut out: Vec<Value> = Vec::new();
                let mut i: usize = 0;
                while i < vs.len()
                    invariant
                        i <= vs@.len(),
                        *self == Value::Array(*vs),
                        out@.len() == i,
                        forall|j: int| 0 <= j < i ==> #[trigger] out@[j]@ == vs@[j]@,
                    decreases vs@.len() - i,
                {
                    proof {
                        assert(decreases_to!(*self => self->Array_0));
                        assert(decreases_to!(self->Array_0 => self->Array_0[i as int]));
                    }
                    out.push(vs[i].copy());
                    i += 1;
                }
                let r = Value::Array(out);
                proof {
                    let a = r@->Arr_0;
                    let b = self@->Arr_0;
                    assert forall|j: int| 0 <= j < a.len() implies a[j] == b[j] by {
                        assert(out@[j]@ == vs@[j]@);
                    }
                    assert(a =~= b);
                }
                r
            },
            Value::Type(t) => Value::Type(t.copy()),
            Value::Void => Value::Void,
            Value::Func(env, ps, body) => {
                let mut out: Vec<(String, Value)> = Vec::new();
                let mut i: usize = 0;
                while i < env.len()
                    invariant
                        i <= env@.len(),
                        *self == Value::Func(*env, *ps, *body),
                        out@.len() == i,
                        forall|j: int|
                            0 <= j < i ==> #[trigger] out@[j].0@ == env@[j].0@ && out@[j].1@
                                == env@[j].1@,
                    decreases env@.len() - i,
                {
                    proof {
                        assert(decreases_to!(*self => self->Func_0));
                        assert(decreases_to!(self->Func_0 => self->Func_0[i as int]));
                        assert(decreases_to!(self->Func_0[i as int] => self->Func_0[i as int].1));
                    }
                    let v = env[i].1.copy();
                    out.push((env[i].0.clone(), v));
                    i += 1;
                }
                let qs = copy_params(ps);
                let r = Value::Func(out, qs, *body);
                proof {
                    let a = r@->Func_0;
                    let b = self@->Func_0;
                    assert forall|j: int| 0 <= j < a.len() implies a[j] == b[j] by {
                        assert(out@[j].0@ == env@[j].0@ && out@[j].1@ == env@[j].1@);
                    }
                    assert(a =~= b);
                }
                r
            },
        }
    }
}

/// A copy of a parameter list.
pub fn copy_params(ps: &Vec<(String, Type)>) -> (r: Vec<(String, Type)>)
    ensures
        params_view(r@) == params_view(ps@),
{
    let mut out: Vec<(String, Type)> = Vec::new();
    let mut i: usize = 0;
    while i < ps.len()
        invariant
            i <= ps@.len(),
            out@.len() == i,
            forall|j: int| 0 <= j < i ==> #[trigger] out@[j].0@ == ps@[j].0@ && out@[j].1@ == ps@[j].1@,
        decreases ps@.len() - i,
    {
        out.push((ps[i].0.clone(), ps[i].1.copy()));
        i += 1;
    }
    assert(params_view(out@) =~= params_view(ps@));
    out
}

/// A copy of a list of bindings.
pub fn copy_bindings(s: &Vec<(String, Value)>) -> (r: Vec<(String, Value)>)
    ensures
        bindings_view(r@) == bindings_view(s@),
{
    let mut out: Vec<(String, Value)> = Vec::new();
    let mut i: usize = 0;
    while i < s.len()
        invariant
            i <= s@.len(),
            out@.len() == i,
            forall|j: int| 0 <= j < i ==> #[trigger] out@[j].0@ == s@[j].0@ && out@[j].1@ == s@[j].1@,
        decreases s@.len() - i,
    {
        out.push((s[i].0.clone(), s[i].1.copy()));
        i += 1;
    }
    assert(bindings_view(out@) =~= bindings_view(s@));
    out
}

} // verus!
