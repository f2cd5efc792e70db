//! The grammar: text to statements and expressions. Each rule reads from a
//! position and, when it matches, gives the node and the position after it,
//! which is always further on; closure bodies go to the code table.
use vstd::prelude::*;
use crate::ast::{Code, Expr, IfStatement, Line, Statement, digit, letter};
use crate::ops::{AssignOp, BoolLogic, CompOp, Op, UnaryOp};
use crate::text::owned;
use crate::value::{Type, Value};

verus! {

/// Source text and its characters.
pub struct Input<'a> {
    pub text: &'a str,
    pub cs: Vec<char>,
}

impl<'a> Input<'a> {
    pub open spec fn wf(&self) -> bool {
        &&& self.cs@ == self.text@
        &&& self.cs@.len() <= usize::MAX
    }

    pub open spec fn len(&self) -> nat {
        self.cs@.len()
    }

    /// The characters of `text`.
    pub fn new(text: &'a str) -> (r: Input<'a>)
        ensures
            r.wf(),
            r.text == text,
    {
        let n = text.unicode_len();
        let mut cs: Vec<char> = Vec::new();
        let mut i: usize = 0;
        while i < n
            invariant
                n == text@.len(),
                i <= n,
                cs@ == text@.subrange(0, i as int),
            decreases n - i,
        {
            cs.push(text.get_char(i));
            proof {
                assert(cs@ =~= text@.subrange(0, i + 1));
            }
            i += 1;
        }
        proof {
            assert(cs@ =~= text@);
        }
        Input { text, cs }
    }

    /// The text from `from` to `to` as a string.
    fn slice(&self, from: usize, to: usize) -> (r: String)
        requires
            self.wf(),
            from <= to <= self.len(),
        ensures
            r@ == self.cs@.subrange(from as int, to as int),
    {
        String::from_str(self.text.substring_char(from, to))
    }

    /// The position after any spaces, tabs, newlines and `//` comments.
    fn skip(&self, pos: usize) -> (r: usize)
        requires
            self.wf(),
            pos <= self.len(),
        ensures
            pos <= r <= self.len(),
    {
        let n = self.cs.len();
        let mut p = pos;
        while p < n
            invariant
                n == self.len(),
                pos <= p <= n,
            decreases n - p,
        {
            let c = self.cs[p];
            if c == ' ' || c == '\t' || c == '\n' || c == '\r' {
                p += 1;
            } else if c == '/' && p + 1 < n && self.cs[p + 1] == '/' {
                let ghost p0 = p;
                p += 2;
                while p < n && self.cs[p] != '\n'
                    invariant
                        n == self.len(),
                        pos <= p <= n,
                        p0 < p,
                    decreases n - p,
                {
                    p += 1;
                }
            } else {
                return p;
            }
        }
        p
    }

    /// Whether `w` stands at `pos`.
    fn at(&self, pos: usize, w: &str) -> (r: bool)
        requires
            self.wf(),
            pos <= self.len(),
        ensures
            r ==> pos + w@.len() <= self.len() && self.cs@.subrange(pos as int, pos + w@.len()) == w@,
    {
        let m = w.unicode_len();
        let n = self.cs.len();
        if m > n - pos {
            return false;
        }
        let mut i: usize = 0;
        while i < m
            invariant
                m == w@.len(),
                n == self.len(),
                pos + m <= n,
                i <= m,
                forall|j: int| 0 <= j < i ==> self.cs@[pos + j] == #[trigger] w@[j],
            decreases m - i,
        {
            if self.cs[pos + i] != w.get_char(i) {
                return false;
            }
            i += 1;
        }
        proof {
            assert(self.cs@.subrange(pos as int, pos + m) =~= w@);
        }
        true
    }

    /// Whether the character at `pos` can continue an identifier.
    fn word_char(&self, pos: usize) -> (r: bool)
        requires
            self.wf(),
            pos <= self.len(),
    {
        pos < self.cs.len() && (letter(self.cs[pos]) || digit(self.cs[pos]))
    }

    /// The position after the punctuation `w` at `pos`, skipping spaces
    /// first.
    fn sym(&self, pos: usize, w: &str) -> (r: Option<usize>)
        requires
            self.wf(),
            pos <= self.len(),
        ensures
            r matches Some(p) ==> pos < p <= self.len(),
    {
        let p = self.skip(pos);
        let m = w.unicode_len();
        if m > 0 && self.at(p, w) {
            Some(p + m)
        } else {
            None
        }
    }

    /// The position after the keyword `w` at `pos`, skipping spaces first;
    /// the keyword must not run on into a longer word.
    fn keyword(&self, pos: usize, w: &str) -> (r: Option<usize>)
        requires
            self.wf(),
            pos <= self.len(),
        ensures
            r matches Some(p) ==> pos < p <= self.len(),
    {
        let p = self.skip(pos);
        let m = w.unicode_len();
        if m > 0 && self.at(p, w) {
            let q = p + m;
            if !self.word_char(q) {
                return Some(q);
            }
        }
        None
    }

    /// An identifier at `pos`.
    fn ident(&self, pos: usize) -> (r: Option<(String, usize)>)
        requires
            self.wf(),
            pos <= self.len(),
        ensures
            r matches Some((_, p)) ==> pos < p <= self.len(),
    {
        let p = self.skip(pos);
        if p >= self.cs.len() || !letter(self.cs[p]) {
            return None;
        }
        let mut q = p + 1;
        while q < self.cs.len() && (letter(self.cs[q]) || digit(self.cs[q]))
            invariant
                p < q <= self.len(),
            decreases self.len() - q,
        {
            q += 1;
        }
        Some((self.slice(p, q), q))
    }

    /// A type name at `pos`.
    fn param_type(&self, pos: usize) -> (r: Option<(Type, usize)>)
        requires
            self.wf(),
            pos <= self.len(),
        ensures
            r matches Some((_, p)) ==> pos < p <= self.len(),
    {
        if let Some(p) = self.keyword(pos, "num") {
            Some((Type::Num, p))
        } else if let Some(p) = self.keyword(pos, "string") {
            Some((Type::String, p))
        } else if let Some(p) = self.keyword(pos, "bool") {
            Some((Type::Boolean, p))
        } else if let Some(p) = self.keyword(pos, "array") {
            Some((Type::Array, p))
        } else if let Some(p) = self.keyword(pos, "type") {
            Some((Type::Type, p))
        } else if let Some(p) = self.keyword(pos, "void") {
            Some((Type::Void, p))
        } else {
            None
        }
    }

    /// A number at `pos`: digits, then a point and digits.
    fn numeral(&self, pos: usize) -> (r: Option<(String, usize)>)
        requires
            self.wf(),
            pos <= self.len(),
        ensures
            r matches Some((_, p)) ==> pos < p <= self.len(),
    {
        let p = self.skip(pos);
        let n = self.cs.len();
        let mut q = p;
        if q < n && self.cs[q] == '-' {
            q += 1;
        }
        let start = q;
        while q < n && digit(self.cs[q])
            invariant
                p <= start <= q <= n,
                n == self.len(),
            decreases n - q,
        {
            q += 1;
        }
        if q == start {
            return None;
        }
        if q < n && q + 1 < n && self.cs[q] == '.' && digit(self.cs[q + 1]) {
            q += 1;
            while q < n && digit(self.cs[q])
                invariant
                    p < q <= n,
                    n == self.len(),
                decreases n - q,
            {
                q += 1;
            }
        }
        Some((self.slice(p, q), q))
    }

    /// A string literal at `pos`, with the escapes `\n`, `\t`, `\"` and
    /// `\\`.
    fn string_lit(&self, pos: usize) -> (r: Option<(String, usize)>)
        requires
            self.wf(),
            pos <= self.len(),
        ensures
            r matches Some((_, p)) ==> pos < p <= self.len(),
    {
        let p = self.skip(pos);
        let n = self.cs.len();
        if p >= n || self.cs[p] != '"' {
            return None;
        }
        let mut out = owned("");
        let mut q = p + 1;
        let mut run = q;
        while q < n
            invariant
                pos <= p < run <= q <= n,
                n == self.len(),
                self.wf(),
            decreases n - q,
        {
            let c = self.cs[q];
            if c == '"' {
                let piece = self.slice(run, q);
                out.append(piece.as_str());
                return Some((out, q + 1));
            } else if c == '\\' && q + 1 < n {
                let piece = self.slice(run, q);
                out.append(piece.as_str());
                let e = self.cs[q + 1];
                if e == 'n' {
                    out.append("\n");
                } else if e == 't' {
                    out.append("\t");
                } else if e == '"' {
                    out.append("\"");
                } else if e == '\\' {
                    out.append("\\");
                } else {
                    return None;
                }
                q += 2;
                run = q;
            } else {
                q += 1;
            }
        }
        None
    }
}

/// The table `b` keeps every body of `a` where it was.
pub open spec fn grows(a: Seq<Vec<Statement>>, b: Seq<Vec<Statement>>) -> bool {
    &&& a.len() <= b.len()
    &&& forall|i: int| 0 <= i < a.len() ==> #[trigger] b[i] == a[i]
}

/// A parameter list at `pos`, up to and with the closing `)`.
fn params(inp: &Input, pos: usize) -> (r: Option<(Vec<(String, Type)>, usize)>)
    requires
        inp.wf(),
        pos <= inp.len(),
    ensures
        r matches Some((_, p)) ==> pos < p <= inp.len(),
{
    let mut out: Vec<(String, Type)> = Vec::new();
    if let Some(p) = inp.sym(pos, ")") {
        return Some((out, p));
    }
    let mut p = pos;
    loop
        invariant
            inp.wf(),
            pos <= p <= inp.len(),
        decreases inp.len() - p,
    {
        let (name, p1) = inp.ident(p)?;
        let p2 = inp.sym(p1, ":")?;
        let (t, p3) = inp.param_type(p2)?;
        out.push((name, t));
        if let Some(p4) = inp.sym(p3, ")") {
            return Some((out, p4));
        }
        p = inp.sym(p3, ",")?;
    }
}

/// Expressions separated by commas, up to and with `close`.
fn expr_list(inp: &Input, code: &mut Vec<Vec<Statement>>, pos: usize, close: &str) -> (r: Option<
    (Vec<Expr>, usize),
>)
    requires
        inp.wf(),
        pos <= inp.len(),
    ensures
        r matches Some((_, p)) ==> pos < p <= inp.len(),
        grows(old(code)@, final(code)@),
    decreases inp.len() - pos, 8nat,
{
    let mut out: Vec<Expr> = Vec::new();
    if let Some(p) = inp.sym(pos, close) {
        return Some((out, p));
    }
    let mut p = pos;
    loop
        invariant
            inp.wf(),
            pos <= p <= inp.len(),
            grows(old(code)@, code@),
        decreases inp.len() - p,
    {
        let (e, p1) = expr(inp, code, p)?;
        out.push(e);
        if let Some(p2) = inp.sym(p1, close) {
            return Some((out, p2));
        }
        p = inp.sym(p1, ",")?;
    }
}

/// A block `{ ... }` of statements at `pos`.
fn block(inp: &Input, code: &mut Vec<Vec<Statement>>, pos: usize) -> (r: Option<(Vec<Statement>, usize)>)
    requires
        inp.wf(),
        pos <= inp.len(),
    ensures
        r matches Some((_, p)) ==> pos < p <= inp.len(),
        grows(old(code)@, final(code)@),
    decreases inp.len() - pos, 11nat,
{
    let mut p = inp.sym(pos, "{")?;
    let mut out: Vec<Statement> = Vec::new();
    loop
        invariant
            inp.wf(),
            pos < p <= inp.len(),
            grows(old(code)@, code@),
        decreases inp.len() - p,
    {
        if let Some(q) = inp.sym(p, "}") {
            return Some((out, q));
        }
        let (st, q) = stmt(inp, code, p)?;
        out.push(st);
        p = q;
    }
}

/// A primary expression at `pos`: a literal, a closure, a built-in, a
/// bracketed expression or a variable.
fn primary(inp: &Input, code: &mut Vec<Vec<Statement>>, pos: usize) -> (r: Option<(Expr, usize)>)
    requires
        inp.wf(),
        pos <= inp.len(),
    ensures
        r matches Some((_, p)) ==> pos < p <= inp.len(),
        grows(old(code)@, final(code)@),
    decreases inp.len() - pos, 0nat,
{
    if let Some((text, p)) = inp.numeral(pos) {
        return Some((Expr::Numeral(text), p));
    }
    if let Some((s, p)) = inp.string_lit(pos) {
        return Some((Expr::Literal(Value::String(s)), p));
    }
    if let Some(p) = inp.keyword(pos, "true") {
        return Some((Expr::Literal(Value::Boolean(true)), p));
    }
    if let Some(p) = inp.keyword(pos, "false") {
        return Some((Expr::Literal(Value::Boolean(false)), p));
    }
    if let Some((t, p)) = inp.param_type(pos) {
        return Some((Expr::Literal(Value::Type(t)), p));
    }
    if let Some(p) = inp.sym(pos, "[") {
        let (es, q) = expr_list(inp, code, p, "]")?;
        return Some((Expr::Array(es), q));
    }
    if let Some(p) = inp.sym(pos, "(") {
        let (e, q) = expr(inp, code, p)?;
        let q2 = inp.sym(q, ")")?;
        return Some((e, q2));
    }
    if let Some(p) = inp.keyword(pos, "func") {
        let p1 = inp.sym(p, "(")?;
        let (ps, p2) = params(inp, p1)?;
        let (body, p3) = block(inp, code, p2)?;
        let index = code.len();
        code.push(body);
        return Some((Expr::FuncDef(ps, index), p3));
    }
    if let Some(p) = inp.keyword(pos, "typeof") {
        let (x, q) = argument(inp, code, p)?;
        return Some((Expr::TypeOf(Box::new(x)), q));
    }
    if let Some(p) = inp.keyword(pos, "length") {
        let (x, q) = argument(inp, code, p)?;
        return Some((Expr::Length(Box::new(x)), q));
    }
    if let Some(p) = inp.keyword(pos, "to_upper") {
        let (x, q) = argument(inp, code, p)?;
        return Some((Expr::ToUpper(Box::new(x)), q));
    }
    if let Some(p) = inp.keyword(pos, "to_lower") {
        let (x, q) = argument(inp, code, p)?;
        return Some((Expr::ToLower(Box::new(x)), q));
    }
    let (name, p) = inp.ident(pos)?;
    if crate::ast::is_reserved(name.as_str()) {
        return None;
    }
    Some((Expr::Reference(name), p))
}

/// `( expr )` at `pos`, the argument of a built-in.
fn argument(inp: &Input, code: &mut Vec<Vec<Statement>>, pos: usize) -> (r: Option<(Expr, usize)>)
    requires
        inp.wf(),
        pos <= inp.len(),
    ensures
        r matches Some((_, p)) ==> pos < p <= inp.len(),
        grows(old(code)@, final(code)@),
    decreases inp.len() - pos, 9nat,
{
    let p = inp.sym(pos, "(")?;
    let (e, q) = expr(inp, code, p)?;
    let q2 = inp.sym(q, ")")?;
    Some((e, q2))
}

/// A primary expression followed by calls `(...)` and indexes `[...]`.
fn postfix(inp: &Input, code: &mut Vec<Vec<Statement>>, pos: usize) -> (r: Option<(Expr, usize)>)
    requires
        inp.wf(),
        pos <= inp.len(),
    ensures
        r matches Some((_, p)) ==> pos < p <= inp.len(),
        grows(old(code)@, final(code)@),
    decreases inp.len() - pos, 1nat,
{
    let (mut e, mut p) = primary(inp, code, pos)?;
    loop
        invariant
            inp.wf(),
            pos < p <= inp.len(),
            grows(old(code)@, code@),
        decreases inp.len() - p,
    {
        if let Some(q) = inp.sym(p, "(") {
            let (args, q2) = expr_list(inp, code, q, ")")?;
            e = Expr::CallFunc(Box::new(e), args);
            p = q2;
        } else if let Some(q) = inp.sym(p, "[") {
            let (i, q2) = expr(inp, code, q)?;
            let q3 = inp.sym(q2, "]")?;
            e = Expr::Index(Box::new(e), Box::new(i));
            p = q3;
        } else {
            return Some((e, p));
        }
    }
}

/// `!` before an operand, and typecasts `as` after it.
fn unary(inp: &Input, code: &mut Vec<Vec<Statement>>, pos: usize) -> (r: Option<(Expr, usize)>)
    requires
        inp.wf(),
        pos <= inp.len(),
    ensures
        r matches Some((_, p)) ==> pos < p <= inp.len(),
        grows(old(code)@, final(code)@),
    decreases inp.len() - pos, 2nat,
{
    if let Some(p) = inp.sym(pos, "!") {
        if !inp.at(p, "=") {
            let (x, q) = unary(inp, code, p)?;
            return Some((Expr::UnOp(UnaryOp::Not, Box::new(x)), q));
        }
    }
    let (mut e, mut p) = postfix(inp, code, pos)?;
    loop
        invariant
            inp.wf(),
            pos < p <= inp.len(),
            grows(old(code)@, code@),
        decreases inp.len() - p,
    {
        if let Some(q) = inp.keyword(p, "as") {
            let (t, q2) = postfix(inp, code, q)?;
            e = Expr::Typecast(Box::new(e), Box::new(t));
            p = q2;
        } else {
            return Some((e, p));
        }
    }
}

/// `**`, which groups to the right.
fn power(inp: &Input, code: &mut Vec<Vec<Statement>>, pos: usize) -> (r: Option<(Expr, usize)>)
    requires
        inp.wf(),
        pos <= inp.len(),
    ensures
        r matches Some((_, p)) ==> pos < p <= inp.len(),
        grows(old(code)@, final(code)@),
    decreases inp.len() - pos, 3nat,
{
    let (a, p) = unary(inp, code, pos)?;
    if let Some(q) = inp.sym(p, "**") {
        let q0 = inp.skip(q);
        if !inp.at(q0, "=") {
            let (b, q2) = power(inp, code, q)?;
            return Some((Expr::BinOp(Op::Exp, Box::new(a), Box::new(b)), q2));
        }
    }
    Some((a, p))
}

/// The operator of a binary rule at `pos`, unless it starts an assignment.
fn operator(inp: &Input, pos: usize, w: &str) -> (r: Option<usize>)
    requires
        inp.wf(),
        pos <= inp.len(),
    ensures
        r matches Some(p) ==> pos < p <= inp.len(),
{
    let p = inp.sym(pos, w)?;
    if inp.at(p, "=") || inp.at(p, w) {
        None
    } else {
        Some(p)
    }
}

/// `*`, `/` and `%`, grouping to the left.
fn product(inp: &Input, code: &mut Vec<Vec<Statement>>, pos: usize) -> (r: Option<(Expr, usize)>)
    requires
        inp.wf(),
        pos <= inp.len(),
    ensures
        r matches Some((_, p)) ==> pos < p <= inp.len(),
        grows(old(code)@, final(code)@),
    decreases inp.len() - pos, 4nat,
{
    let (mut e, mut p) = power(inp, code, pos)?;
    loop
        invariant
            inp.wf(),
            pos < p <= inp.len(),
            grows(old(code)@, code@),
        decreases inp.len() - p,
    {
        let (op, q) = if let Some(q) = operator(inp, p, "*") {
            (Op::Mul, q)
        } else if let Some(q) = operator(inp, p, "/") {
            (Op::Div, q)
        } else if let Some(q) = operator(inp, p, "%") {
            (Op::Mod, q)
        } else {
            return Some((e, p));
        };
        let (b, q2) = power(inp, code, q)?;
        e = Expr::BinOp(op, Box::new(e), Box::new(b));
        p = q2;
    }
}

/// `+` and `-`, grouping to the left.
fn sum(inp: &Input, code: &mut Vec<Vec<Statement>>, pos: usize) -> (r: Option<(Expr, usize)>)
    requires
        inp.wf(),
        pos <= inp.len(),
    ensures
        r matches Some((_, p)) ==> pos < p <= inp.len(),
        grows(old(code)@, final(code)@),
    decreases inp.len() - pos, 5nat,
{
    let (mut e, mut p) = product(inp, code, pos)?;
    loop
        invariant
            inp.wf(),
            pos < p <= inp.len(),
            grows(old(code)@, code@),
        decreases inp.len() - p,
    {
        let (op, q) = if let Some(q) = operator(inp, p, "+") {
            (Op::Add, q)
        } else if let Some(q) = operator(inp, p, "-") {
            (Op::Sub, q)
        } else {
            return Some((e, p));
        };
        let (b, q2) = product(inp, code, q)?;
        e = Expr::BinOp(op, Box::new(e), Box::new(b));
        p = q2;
    }
}

/// A comparison operator at `pos`.
fn comp_op(inp: &Input, pos: usize) -> (r: Option<(CompOp, usize)>)
    requires
        inp.wf(),
        pos <= inp.len(),
    ensures
        r matches Some((_, p)) ==> pos < p <= inp.len(),
{
    if let Some(p) = inp.sym(pos, "==") {
        Some((CompOp::Equal, p))
    } else if let Some(p) = inp.sym(pos, "!=") {
        Some((CompOp::NotEq, p))
    } else if let Some(p) = inp.sym(pos, ">=") {
        Some((CompOp::Ge, p))
    } else if let Some(p) = inp.sym(pos, "<=") {
        Some((CompOp::Le, p))
    } else if let Some(p) = inp.sym(pos, ">") {
        Some((CompOp::Gt, p))
    } else if let Some(p) = inp.sym(pos, "<") {
        Some((CompOp::Lt, p))
    } else {
        None
    }
}

/// A sum, or a comparison of two sums.
fn comparison(inp: &Input, code: &mut Vec<Vec<Statement>>, pos: usize) -> (r: Option<(Expr, usize)>)
    requires
        inp.wf(),
        pos <= inp.len(),
    ensures
        r matches Some((_, p)) ==> pos < p <= inp.len(),
        grows(old(code)@, final(code)@),
    decreases inp.len() - pos, 6nat,
{
    let (a, p) = sum(inp, code, pos)?;
    if let Some((op, q)) = comp_op(inp, p) {
        let (b, q2) = sum(inp, code, q)?;
        return Some((Expr::Comparison(op, Box::new(a), Box::new(b)), q2));
    }
    Some((a, p))
}

/// An expression: comparisons joined by `&&`, `and`, `||` or `or`,
/// grouping to the left.
fn expr(inp: &Input, code: &mut Vec<Vec<Statement>>, pos: usize) -> (r: Option<(Expr, usize)>)
    requires
        inp.wf(),
        pos <= inp.len(),
    ensures
        r matches Some((_, p)) ==> pos < p <= inp.len(),
        grows(old(code)@, final(code)@),
    decreases inp.len() - pos, 7nat,
{
    let (mut e, mut p) = comparison(inp, code, pos)?;
    loop
        invariant
            inp.wf(),
            pos < p <= inp.len(),
            grows(old(code)@, code@),
        decreases inp.len() - p,
    {
        let (op, q) = if let Some(q) = inp.sym(p, "&&") {
            (BoolLogic::And, q)
        } else if let Some(q) = inp.keyword(p, "and") {
            (BoolLogic::And, q)
        } else if let Some(q) = inp.sym(p, "||") {
            (BoolLogic::Or, q)
        } else if let Some(q) = inp.keyword(p, "or") {
            (BoolLogic::Or, q)
        } else {
            return Some((e, p));
        };
        let (b, q2) = comparison(inp, code, q)?;
        e = Expr::BoolChain(op, Box::new(e), Box::new(b));
        p = q2;
    }
}

/// An assignment operator at `pos`.
fn assign_op(inp: &Input, pos: usize) -> (r: Option<(AssignOp, usize)>)
    requires
        inp.wf(),
        pos <= inp.len(),
    ensures
        r matches Some((_, p)) ==> pos < p <= inp.len(),
{
    if let Some(p) = inp.sym(pos, "**=") {
        Some((AssignOp::ExpEq, p))
    } else if let Some(p) = inp.sym(pos, "+=") {
        Some((AssignOp::AddEq, p))
    } else if let Some(p) = inp.sym(pos, "-=") {
        Some((AssignOp::SubEq, p))
    } else if let Some(p) = inp.sym(pos, "*=") {
        Some((AssignOp::MulEq, p))
    } else if let Some(p) = inp.sym(pos, "/=") {
        Some((AssignOp::DivEq, p))
    } else if let Some(p) = inp.sym(pos, "%=") {
        Some((AssignOp::ModEq, p))
    } else if let Some(p) = inp.sym(pos, "=") {
        if inp.at(p, "=") {
            None
        } else {
            Some((AssignOp::Equals, p))
        }
    } else {
        None
    }
}

/// `expr ;` at `pos`.
fn expr_then_semi(inp: &Input, code: &mut Vec<Vec<Statement>>, pos: usize) -> (r: Option<(Expr, usize)>)
    requires
        inp.wf(),
        pos <= inp.len(),
    ensures
        r matches Some((_, p)) ==> pos < p <= inp.len(),
        grows(old(code)@, final(code)@),
    decreases inp.len() - pos, 8nat,
{
    let (e, p) = expr(inp, code, pos)?;
    let q = inp.sym(p, ";")?;
    Some((e, q))
}

/// The expressions of `print` or `println`, with the closing `;`.
fn print_list(inp: &Input, code: &mut Vec<Vec<Statement>>, pos: usize) -> (r: Option<(Vec<Expr>, usize)>)
    requires
        inp.wf(),
        pos <= inp.len(),
    ensures
        r matches Some((_, p)) ==> pos < p <= inp.len(),
        grows(old(code)@, final(code)@),
    decreases inp.len() - pos, 9nat,
{
    expr_list(inp, code, pos, ";")
}

/// The `elif` and `else` branches after an `if` branch.
fn branches(inp: &Input, code: &mut Vec<Vec<Statement>>, pos: usize) -> (r: Option<
    (Option<Vec<IfStatement>>, Option<Vec<Statement>>, usize),
>)
    requires
        inp.wf(),
        pos <= inp.len(),
    ensures
        r matches Some((_, _, p)) ==> pos <= p <= inp.len(),
        grows(old(code)@, final(code)@),
    decreases inp.len() - pos, 12nat,
{
    let mut elifs: Vec<IfStatement> = Vec::new();
    let mut p = pos;
    loop
        invariant
            inp.wf(),
            pos <= p <= inp.len(),
            grows(old(code)@, code@),
        decreases inp.len() - p,
    {
        let mut next: Option<usize> = inp.keyword(p, "elif");
        if next.is_none() {
            if let Some(q) = inp.keyword(p, "else") {
                next = inp.keyword(q, "if");
            }
        }
        match next {
            Some(q) => {
                let (c, q1) = expr(inp, code, q)?;
                let (body, q2) = block(inp, code, q1)?;
                elifs.push(IfStatement { e: c, s: body });
                p = q2;
            },
            None => {
                break ;
            },
        }
    }
    let first = if elifs.len() == 0 {
        None
    } else {
        Some(elifs)
    };
    if let Some(q) = inp.keyword(p, "else") {
        let (body, q2) = block(inp, code, q)?;
        return Some((first, Some(body), q2));
    }
    Some((first, None, p))
}

/// A statement at `pos`.
fn stmt(inp: &Input, code: &mut Vec<Vec<Statement>>, pos: usize) -> (r: Option<(Statement, usize)>)
    requires
        inp.wf(),
        pos <= inp.len(),
    ensures
        r matches Some((_, p)) ==> pos < p <= inp.len(),
        grows(old(code)@, final(code)@),
    decreases inp.len() - pos, 13nat,
{
    if let Some(p) = inp.keyword(pos, "let") {
        let (name, p1) = inp.ident(p)?;
        let p2 = inp.sym(p1, "=")?;
        let (e, p3) = expr_then_semi(inp, code, p2)?;
        return Some((Statement::DeclareVar(name, e), p3));
    }
    if let Some(p) = inp.keyword(pos, "return") {
        let (e, q) = expr_then_semi(inp, code, p)?;
        return Some((Statement::Return(e), q));
    }
    if let Some(p) = inp.keyword(pos, "exit") {
        let (e, q) = expr_then_semi(inp, code, p)?;
        return Some((Statement::Exit(e), q));
    }
    if let Some(p) = inp.keyword(pos, "println") {
        let (es, q) = print_list(inp, code, p)?;
        return Some((Statement::Println(es), q));
    }
    if let Some(p) = inp.keyword(pos, "print") {
        let (es, q) = print_list(inp, code, p)?;
        return Some((Statement::Print(es), q));
    }
    if let Some(p) = inp.keyword(pos, "if") {
        let (c, p1) = expr(inp, code, p)?;
        let (body, p2) = block(inp, code, p1)?;
        let (elifs, otherwise, p3) = branches(inp, code, p2)?;
        return Some((Statement::If(IfStatement { e: c, s: body }, elifs, otherwise), p3));
    }
    if let Some(p) = inp.keyword(pos, "while") {
        let (c, p1) = expr(inp, code, p)?;
        let (body, p2) = block(inp, code, p1)?;
        return Some((Statement::While(c, body), p2));
    }
    if let Some((name, p)) = inp.ident(pos) {
        if let Some((op, p1)) = assign_op(inp, p) {
            let (e, p2) = expr_then_semi(inp, code, p1)?;
            return Some((Statement::MutateVar(op, name, e), p2));
        }
    }
    let (e, p) = expr_then_semi(inp, code, pos)?;
    Some((Statement::Expression(e), p))
}

/// Where the text stopped matching the grammar.
#[derive(Debug, PartialEq)]
pub struct SyntaxError {
    pub at: usize,
}

/// A parsed node and the closure bodies it holds.
pub struct Parsed<T> {
    pub node: T,
    pub code: Code,
}

/// A parsed script: its statements and the closure bodies they hold.
pub struct Program {
    pub main: Vec<Statement>,
    pub code: Code,
}

/// `Ok` when only spaces and comments follow `p`.
fn finish(inp: &Input, p: usize) -> (r: Result<(), SyntaxError>)
    requires
        inp.wf(),
        p <= inp.len(),
    ensures
        r matches Err(e) ==> p <= e.at <= inp.len(),
{
    let q = inp.skip(p);
    if q == inp.cs.len() {
        Ok(())
    } else {
        Err(SyntaxError { at: q })
    }
}

/// A whole script: statements up to the end of the text.
pub fn ast(text: &str) -> (r: Result<Program, SyntaxError>)
    ensures
        r matches Err(e) ==> e.at <= text@.len(),
{
    let inp = Input::new(text);
    let mut code: Vec<Vec<Statement>> = Vec::new();
    let mut main: Vec<Statement> = Vec::new();
    let mut p: usize = 0;
    loop
        invariant
            inp.wf(),
            inp.cs@ == text@,
            p <= inp.len(),
        decreases inp.len() - p,
    {
        let q = inp.skip(p);
        if q == inp.cs.len() {
            return Ok(Program { main, code: Code { bodies: code } });
        }
        match stmt(&inp, &mut code, q) {
            Some((st, q2)) => {
                main.push(st);
                p = q2;
            },
            None => {
                return Err(SyntaxError { at: q });
            },
        }
    }
}

/// One statement, and nothing after it.
pub fn statement(text: &str) -> (r: Result<Parsed<Statement>, SyntaxError>)
    ensures
        r matches Err(e) ==> e.at <= text@.len(),
{
    let inp = Input::new(text);
    let mut code: Vec<Vec<Statement>> = Vec::new();
    match stmt(&inp, &mut code, 0) {
        Some((st, p)) => {
            finish(&inp, p)?;
            Ok(Parsed { node: st, code: Code { bodies: code } })
        },
        None => Err(SyntaxError { at: 0 }),
    }
}

/// One expression, and nothing after it.
pub fn expression(text: &str) -> (r: Result<Parsed<Expr>, SyntaxError>)
    ensures
        r matches Err(e) ==> e.at <= text@.len(),
{
    let inp = Input::new(text);
    let mut code: Vec<Vec<Statement>> = Vec::new();
    match expr(&inp, &mut code, 0) {
        Some((e, p)) => {
            finish(&inp, p)?;
            Ok(Parsed { node: e, code: Code { bodies: code } })
        },
        None => Err(SyntaxError { at: 0 }),
    }
}

/// One expression that is a call of the built-in `name`.
fn builtin(text: &str, name: &str) -> (r: Result<Parsed<Expr>, SyntaxError>)
    ensures
        r matches Err(e) ==> e.at <= text@.len(),
{
    let inp = Input::new(text);
    let mut code: Vec<Vec<Statement>> = Vec::new();
    if inp.keyword(0, name).is_none() {
        return Err(SyntaxError { at: 0 });
    }
    match primary(&inp, &mut code, 0) {
        Some((e, p)) => {
            finish(&inp, p)?;
            Ok(Parsed { node: e, code: Code { bodies: code } })
        },
        None => Err(SyntaxError { at: 0 }),
    }
}

/// `length(...)`.
pub fn length(text: &str) -> (r: Result<Parsed<Expr>, SyntaxError>)
    ensures
        r matches Ok(x) ==> x.node is Length,
        r matches Err(e) ==> e.at <= text@.len(),
{
    let r = builtin(text, "length");
    match r {
        Ok(x) => match x.node {
            Expr::Length(_) => Ok(x),
            _ => Err(SyntaxError { at: 0 }),
        },
        Err(e) => Err(e),
    }
}

/// `to_upper(...)`.
pub fn to_upper(text: &str) -> (r: Result<Parsed<Expr>, SyntaxError>)
    ensures
        r matches Ok(x) ==> x.node is ToUpper,
        r matches Err(e) ==> e.at <= text@.len(),
{
    let r = builtin(text, "to_upper");
    match r {
        Ok(x) => match x.node {
            Expr::ToUpper(_) => Ok(x),
            _ => Err(SyntaxError { at: 0 }),
        },
        Err(e) => Err(e),
    }
}

/// `to_lower(...)`.
pub fn to_lower(text: &str) -> (r: Result<Parsed<Expr>, SyntaxError>)
    ensures
        r matches Ok(x) ==> x.node is ToLower,
        r matches Err(e) ==> e.at <= text@.len(),
{
    let r = builtin(text, "to_lower");
    match r {
        Ok(x) => match x.node {
            Expr::ToLower(_) => Ok(x),
            _ => Err(SyntaxError { at: 0 }),
        },
        Err(e) => Err(e),
    }
}

/// A line typed at the prompt: a statement, or else an expression. The
/// closure bodies it holds are added to `code`, after those already there.
pub fn single_line(code: &mut Code, text: &str) -> (r: Result<Line, SyntaxError>)
    ensures
        grows(old(code).bodies@, final(code).bodies@),
        r matches Err(e) ==> e.at <= text@.len(),
{
    let inp = Input::new(text);
    if let Some((st, p)) = stmt(&inp, &mut code.bodies, 0) {
        if finish(&inp, p).is_ok() {
            return Ok(Line::Statement(st));
        }
    }
    match expr(&inp, &mut code.bodies, 0) {
        Some((e, p)) => {
            finish(&inp, p)?;
            Ok(Line::Expression(e))
        },
        None => Err(SyntaxError { at: 0 }),
    }
}

} // verus!
