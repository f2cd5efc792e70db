//! Text forms of types and values.
use vstd::prelude::*;
use crate::ops::Host;
use crate::value::{Type, Tag, Value, Val, param_tags};

verus! {

/// `parts` in order with `sep` between each two.
pub open spec fn joined(parts: Seq<Seq<char>>, sep: Seq<char>) -> Seq<char>
    decreases parts.len(),
{
    if parts.len() == 0 {
        Seq::empty()
    } else if parts.len() == 1 {
        parts[0]
    } else {
        joined(parts.drop_last(), sep) + sep + parts.last()
    }
}

/// The models of a list of strings.
pub open spec fn texts(parts: Seq<String>) -> Seq<Seq<char>> {
    Seq::new(parts.len(), |i: int| parts[i]@)
}

/// Relies on itertools::join: it writes the parts in order with `sep`
/// between each two, and a `String` writes itself unchanged.
#[verifier::external_body]
fn join_parts(parts: &Vec<String>, sep: &str) -> (r: String)
    ensures
        r@ == joined(texts(parts@), sep@),
{
    itertools::join(parts, sep)
}

/// `func(` and `)` around the names of the parameter types.
pub open spec fn func_text(parts: Seq<Seq<char>>) -> Seq<char> {
    "func("@ + joined(parts, ", "@) + ")"@
}

/// The names of a list of types.
pub open spec fn type_texts(ps: Seq<Tag>) -> Seq<Seq<char>>
    decreases ps,
{
    Seq::new(
        ps.len(),
        |i: int|
            if 0 <= i < ps.len() {
                type_text(ps[i])
            } else {
                Seq::empty()
            },
    )
}

/// The name of a type.
pub open spec fn type_text(t: Tag) -> Seq<char>
    decreases t,
{
    match t {
        Tag::Num => "num"@,
        Tag::Str => "string"@,
        Tag::Bool => "bool"@,
        Tag::Arr => "array"@,
        Tag::Ty => "type"@,
        Tag::Void => "void"@,
        Tag::Func(ps) => func_text(type_texts(ps)),
    }
}

/// The text of a boolean.
pub open spec fn bool_text(b: bool) -> Seq<char> {
    if b {
        "true"@
    } else {
        "false"@
    }
}

/// Whether a value holds a number anywhere in it (whose text the
/// arithmetic decides).
pub open spec fn has_num(v: Val) -> bool
    decreases v,
{
    match v {
        Val::Num(_) => true,
        Val::Arr(vs) => exists|i: int| 0 <= i < vs.len() && has_num(#[trigger] vs[i]),
        _ => false,
    }
}

/// The texts of a list of values that hold no number.
pub open spec fn value_texts(vs: Seq<Val>) -> Seq<Seq<char>>
    decreases vs,
{
    Seq::new(
        vs.len(),
        |i: int|
            if 0 <= i < vs.len() {
                value_text(vs[i])
            } else {
                Seq::empty()
            },
    )
}

/// The text of a value that holds no number.
pub open spec fn value_text(v: Val) -> Seq<char>
    decreases v,
{
    match v {
        Val::Num(_) => Seq::empty(),
        Val::Str(s) => s,
        Val::Bool(b) => bool_text(b),
        Val::Arr(vs) => "["@ + joined(value_texts(vs), ", "@) + "]"@,
        Val::Ty(t) => type_text(t),
        Val::Void => "void"@,
        Val::Func(_, ps, _) => func_text(type_texts(param_tags(ps))),
    }
}

/// `parts` are texts of the values `vs`, one each: exactly their text
/// where a value holds no number.
pub open spec fn texts_of(parts: Seq<Seq<char>>, vs: Seq<Val>) -> bool {
    &&& parts.len() == vs.len()
    &&& forall|i: int| 0 <= i < vs.len() && !has_num(vs[i]) ==> #[trigger] parts[i] == value_text(vs[i])
}

/// A `String` holding the text of a literal.
pub fn owned(s: &str) -> (r: String)
    ensures
        r@ == s@,
{
    String::from_str(s)
}

/// The text of a boolean.
pub fn bool_to_text(b: bool) -> (r: String)
    ensures
        r@ == bool_text(b),
{
    if b {
        owned("true")
    } else {
        owned("false")
    }
}

impl Type {
    /// The name of this type: `num`, `string`, `bool`, `array`, `type`,
    /// `void`, or `func(...)` with the names of the parameter types.
    pub fn to_text(&self) -> (r: String)
        ensures
            r@ == type_text(self@),
        decreases self,
    {
        match self {
            Type::Num => owned("num"),
            Type::String => owned("string"),
            Type::Boolean => owned("bool"),
            Type::Array => owned("array"),
            Type::Type => owned("type"),
            Type::Void => owned("void"),
            Type::Func(ps) => {
                let mut parts: Vec<String> = Vec::new();
                let mut i: usize = 0;
                while i < ps.len()
                    invariant
                        i <= ps@.len(),
                        *self == Type::Func(*ps),
                        parts@.len() == i,
                        forall|j: int| 0 <= j < i ==> #[trigger] parts@[j]@ == type_text(ps@[j]@),
                    decreases ps@.len() - i,
                {
                    proof {
                        assert(decreases_to!(*self => self->Func_0));
                        assert(decreases_to!(self->Func_0 => self->Func_0[i as int]));
                    }
                    parts.push(ps[i].to_text());
                    i += 1;
                }
                let r = func_from(&parts);
                proof {
                    let t = self@->Func_0;
                    let a = texts(parts@);
                    let b = type_texts(t);
                    assert forall|j: int| 0 <= j < a.len() implies a[j] == b[j] by {
                        assert(parts@[j]@ == type_text(ps@[j]@));
                    }
                    assert(a =~= b);
                }
                r
            },
        }
    }
}

/// `func(` and `)` around the given names.
fn func_from(parts: &Vec<String>) -> (r: String)
    ensures
        r@ == func_text(texts(parts@)),
{
    let mut s = owned("func(");
    let inner = join_parts(parts, ", ");
    s.append(inner.as_str());
    s.append(")");
    s
}

impl Value {
    /// The text of this value: numbers as the arithmetic writes them,
    /// strings as they are, arrays as `[a, b]`, closures as `func(...)` with
    /// their parameter types.
    pub fn to_text<A: Host>(&self, ar: &A) -> (r: String)
        ensures
            !has_num(self@) ==> r@ == value_text(self@),
            self@ is Arr ==> exists|parts: Seq<Seq<char>>|
                #[trigger] texts_of(parts, self@->Arr_0) && r@ == "["@ + joined(parts, ", "@) + "]"@,
        decreases self,
    {
        match self {
            Value::Num(n) => ar.render(*n),
            Value::String(s) => s.clone(),
            Value::Boolean(b) => bool_to_text(*b),
            Value::Array(vs) => {
                let mut parts: Vec<String> = Vec::new();
                let mut i: usize = 0;
                while i < vs.len()
                    invariant
                        i <= vs@.len(),
                        *self == Value::Array(*vs),
                        parts@.len() == i,
                        forall|j: int|
                            0 <= j < i && !has_num(vs@[j]@) ==> #[trigger] parts@[j]@ == value_text(
                                vs@[j]@,
                            ),
                    decreases vs@.len() - i,
                {
                    proof {
                        assert(decreases_to!(*self => self->Array_0));
                        assert(decreases_to!(self->Array_0 => self->Array_0[i as int]));
                    }
                    parts.push(vs[i].to_text(ar));
                    i += 1;
                }
                proof {
                    assert(texts_of(texts(parts@), vs@.map_values(|v: Value| v@)) == texts_of(texts(parts@), self@->Arr_0)) by {
                        assert(vs@.map_values(|v: Value| v@) =~= self@->Arr_0);
                    }
                }
                let mut s = owned("[");
                let inner = join_parts(&parts, ", ");
                s.append(inner.as_str());
                s.append("]");
                proof {
                    if !has_num(self@) {
                        let t = self@->Arr_0;
                        let a = texts(parts@);
                        let b = value_texts(t);
                        assert forall|j: int| 0 <= j < a.len() implies a[j] == b[j] by {
                            assert(t[j] == vs@[j]@);
                            assert(!has_num(t[j]));
                        }
                        assert(a =~= b);
                    }
                }
                s
            },
            Value::Type(t) => t.to_text(),
            Value::Void => owned("void"),
            Value::Func(_, ps, _) => {
                let mut parts: Vec<String> = Vec::new();
                let mut i: usize = 0;
                while i < ps.len()
                    invariant
                        i <= ps@.len(),
                        parts@.len() == i,
                        forall|j: int| 0 <= j < i ==> #[trigger] parts@[j]@ == type_text(ps@[j].1@),
                    decreases ps@.len() - i,
                {
                    parts.push(ps[i].1.to_text());
                    i += 1;
                }
                let r = func_from(&parts);
                proof {
                    let q = self@->Func_1;
                    assert(texts(parts@) =~= type_texts(param_tags(q)));
                }
                r
            },
        }
    }
}

/// The characters of `s`, each as a string of its own.
pub fn split_chars(s: &String) -> (r: Vec<Value>)
    ensures
        r@.len() == s@.len(),
        forall|i: int| 0 <= i < s@.len() ==> #[trigger] r@[i]@ == Val::Str(seq![s@[i]]),
{
    let x = s.as_str();
    let n = x.unicode_len();
    let mut out: Vec<Value> = Vec::new();
    let mut i: usize = 0;
    while i < n
        invariant
            n == s@.len(),
            x@ == s@,
            i <= n,
            out@.len() == i,
            forall|j: int| 0 <= j < i ==> #[trigger] out@[j]@ == Val::Str(seq![s@[j]]),
        decreases n - i,
    {
        let piece = x.substring_char(i, i + 1);
        proof {
            assert(piece@ =~= seq![s@[i as int]]);
        }
        out.push(Value::String(String::from_str(piece)));
        i += 1;
    }
    out
}

/// `true` and `false` read as booleans.
pub fn parse_bool(s: &String) -> (r: Option<bool>)
    ensures
        r == (if s@ == "true"@ {
            Some(true)
        } else if s@ == "false"@ {
            Some(false)
        } else {
            None
        }),
{
    if *s == owned("true") {
        Some(true)
    } else if *s == owned("false") {
        Some(false)
    } else {
        None
    }
}

/// What `print` writes for `vs`: their texts with nothing between them,
/// then a newline for `println`.
pub fn print_text<A: Host>(ar: &A, vs: &Vec<Value>, newline: bool) -> (r: String)
    ensures
        exists|parts: Seq<Seq<char>>|
            #[trigger] texts_of(parts, vals_of(vs@)) && r@ == joined(parts, Seq::empty()) + (if newline {
                "\n"@
            } else {
                Seq::empty()
            }),
{
    let mut parts: Vec<String> = Vec::new();
    let mut i: usize = 0;
    while i < vs.len()
        invariant
            i <= vs@.len(),
            parts@.len() == i,
            forall|j: int| 0 <= j < i && !has_num(vs@[j]@) ==> #[trigger] parts@[j]@ == value_text(vs@[j]@),
        decreases vs@.len() - i,
    {
        parts.push(vs[i].to_text(ar));
        i += 1;
    }
    let mut s = join_parts(&parts, "");
    proof {
        reveal_strlit("");
        assert(""@ =~= Seq::<char>::empty());
        assert(texts_of(texts(parts@), vals_of(vs@)));
    }
    if newline {
        s.append("\n");
    } else {
        proof {
            assert(s@ =~= s@ + Seq::<char>::empty());
        }
    }
    s
}

/// The models of a list of values.
pub open spec fn vals_of(vs: Seq<Value>) -> Seq<Val> {
    Seq::new(vs.len(), |i: int| vs[i]@)
}

} // verus!
