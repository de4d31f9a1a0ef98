use vstd::prelude::*;

use crate::error::{RuntimeError, RuntimeErrorKind};
use crate::lexer::{chars_of, string_of, Token, TokenView};
use crate::parser::{names_view, nodes_view, ASTNode, AstView};
use std::rc::Rc;

verus! {

/// The eager natives: their operands are evaluated first.
#[derive(Debug, Clone, Copy, PartialEq, Eq, Structural)]
pub enum Native {
    Plus,
    Minus,
    LessThan,
    Write,
    Str,
    Readline,
}

/// The special-form natives: they receive their operands unevaluated.
#[derive(Debug, Clone, Copy, PartialEq, Eq, Structural)]
pub enum LazyNative {
    If,
    Let,
    Lambda,
    List,
}

/// The natives that may add a binding to the top-level environment.
#[derive(Debug, Clone, Copy, PartialEq, Eq, Structural)]
pub enum MutatingNative {
    Defun,
}

/// A user-defined callable: parameter names and body expressions.
#[derive(Debug)]
pub struct ClosureImpl {
    pub ids: Vec<String>,
    pub body: Vec<ASTNode>,
}

/// A runtime value.
#[derive(Debug, Clone)]
pub enum Value {
    Int(i64),
    Boolean(bool),
    Str(String),
    Function(Native),
    LazyFunction(LazyNative),
    EnvMutatingFunction(MutatingNative),
    Closure(Rc<ClosureImpl>),
    List(Rc<Vec<Value>>),
    Unit,
}

/// The mathematical model of a value.
pub enum ValueView {
    Int(i64),
    Boolean(bool),
    Str(Seq<char>),
    Function(Native),
    LazyFunction(LazyNative),
    EnvMutatingFunction(MutatingNative),
    Closure(Seq<Seq<char>>, Seq<AstView>),
    List(Seq<ValueView>),
    Unit,
}

pub open spec fn value_view(v: Value) -> ValueView
    decreases v,
{
    match v {
        Value::Int(i) => ValueView::Int(i),
        Value::Boolean(b) => ValueView::Boolean(b),
        Value::Str(s) => ValueView::Str(s@),
        Value::Function(n) => ValueView::Function(n),
        Value::LazyFunction(n) => ValueView::LazyFunction(n),
        Value::EnvMutatingFunction(n) => ValueView::EnvMutatingFunction(n),
        Value::Closure(c) => ValueView::Closure(names_view(c.ids@), nodes_view(c.body@)),
        Value::List(items) => ValueView::List(
            Seq::new(
                items@.len(),
                |i: int|
                    if 0 <= i < items@.len() {
                        value_view(items@[i])
                    } else {
                        ValueView::Unit
                    },
            ),
        ),
        Value::Unit => ValueView::Unit,
    }
}

impl View for Value {
    type V = ValueView;

    open spec fn view(&self) -> ValueView {
        value_view(*self)
    }
}

/// The models of a sequence of values.
pub open spec fn values_view(v: Seq<Value>) -> Seq<ValueView> {
    Seq::new(v.len(), |i: int| v[i]@)
}

pub proof fn lemma_list_view(items: Vec<Value>)
    ensures
        value_view(Value::List(Rc::new(items))) == ValueView::List(values_view(items@)),
{
    assert(value_view(Value::List(Rc::new(items)))->List_0 =~= values_view(items@));
}

pub open spec fn is_callable_view(v: ValueView) -> bool {
    match v {
        ValueView::Function(_) | ValueView::LazyFunction(_) | ValueView::EnvMutatingFunction(_)
        | ValueView::Closure(_, _) => true,
        _ => false,
    }
}

/// The value that a literal token denotes.
pub open spec fn literal_value(t: TokenView) -> Result<ValueView, RuntimeErrorKind> {
    match t {
        TokenView::IntLiteral(i) => Ok(ValueView::Int(i)),
        TokenView::StringLiteral(s) => Ok(ValueView::Str(s)),
        _ => Err(RuntimeErrorKind::InvalidNode),
    }
}

pub open spec fn digit_char(d: int) -> char {
    if d == 0 {
        '0'
    } else if d == 1 {
        '1'
    } else if d == 2 {
        '2'
    } else if d == 3 {
        '3'
    } else if d == 4 {
        '4'
    } else if d == 5 {
        '5'
    } else if d == 6 {
        '6'
    } else if d == 7 {
        '7'
    } else if d == 8 {
        '8'
    } else {
        '9'
    }
}

/// The decimal digits of a natural number, most significant first.
pub open spec fn nat_digits(n: nat) -> Seq<char>
    decreases n,
{
    if n < 10 {
        seq![digit_char(n as int)]
    } else {
        nat_digits(n / 10) + seq![digit_char((n % 10) as int)]
    }
}

/// The decimal text of an integer, with a leading `-` when it is negative.
pub open spec fn decimal(i: int) -> Seq<char> {
    if i < 0 {
        seq!['-'] + nat_digits((-i) as nat)
    } else {
        nat_digits(i as nat)
    }
}

pub open spec fn true_text() -> Seq<char> {
    seq!['t', 'r', 'u', 'e']
}

pub open spec fn false_text() -> Seq<char> {
    seq!['f', 'a', 'l', 's', 'e']
}

/// The text of a value: decimal for integers, `true`/`false`, a string as it is, and a list as
/// `(` and its items' texts joined by spaces and `)`. Unit and callables have none.
pub open spec fn text_of(v: ValueView) -> Option<Seq<char>>
    decreases v, 0nat,
{
    match v {
        ValueView::Int(i) => Some(decimal(i as int)),
        ValueView::Boolean(b) => Some(
            if b {
                true_text()
            } else {
                false_text()
            },
        ),
        ValueView::Str(s) => Some(s),
        ValueView::List(items) => match join_items(items, items.len()) {
            Some(t) => Some(seq!['('] + t + seq![')']),
            None => None,
        },
        _ => None,
    }
}

/// The texts of the first `n` items joined by single spaces, or `None` where one has no text.
pub open spec fn join_items(items: Seq<ValueView>, n: nat) -> Option<Seq<char>>
    decreases items, n,
{
    if n == 0 || n > items.len() {
        if n == 0 {
            Some(seq![])
        } else {
            None
        }
    } else {
        match (join_items(items, (n - 1) as nat), text_of(items[n - 1])) {
            (Some(prev), Some(t)) => Some(
                if n == 1 {
                    t
                } else {
                    prev + seq![' '] + t
                },
            ),
            _ => None,
        }
    }
}

fn digit_char_exec(d: u64) -> (c: char)
    requires
        d < 10,
    ensures
        c == digit_char(d as int),
{
    if d == 0 {
        '0'
    } else if d == 1 {
        '1'
    } else if d == 2 {
        '2'
    } else if d == 3 {
        '3'
    } else if d == 4 {
        '4'
    } else if d == 5 {
        '5'
    } else if d == 6 {
        '6'
    } else if d == 7 {
        '7'
    } else if d == 8 {
        '8'
    } else {
        '9'
    }
}

fn push_digits(n: u64, out: &mut Vec<char>)
    ensures
        final(out)@ == old(out)@ + nat_digits(n as nat),
    decreases n,
{
    if n >= 10 {
        push_digits(n / 10, out);
    }
    out.push(digit_char_exec(n % 10));
    proof {
        if n >= 10 {
            assert((n / 10) as nat == (n as nat) / 10);
        }
    }
    assert(final(out)@ =~= old(out)@ + nat_digits(n as nat));
}

fn push_decimal(i: i64, out: &mut Vec<char>)
    ensures
        final(out)@ == old(out)@ + decimal(i as int),
{
    if i < 0 {
        out.push('-');
        let m: u64 = if i == i64::MIN {
            9223372036854775808u64
        } else {
            (-i) as u64
        };
        push_digits(m, out);
        assert(final(out)@ =~= old(out)@ + decimal(i as int));
    } else {
        push_digits(i as u64, out);
    }
}

fn push_text_literal(out: &mut Vec<char>, b: bool)
    ensures
        final(out)@ == old(out)@ + (if b {
            true_text()
        } else {
            false_text()
        }),
{
    if b {
        out.push('t');
        out.push('r');
        out.push('u');
        out.push('e');
        assert(final(out)@ =~= old(out)@ + true_text());
    } else {
        out.push('f');
        out.push('a');
        out.push('l');
        out.push('s');
        out.push('e');
        assert(final(out)@ =~= old(out)@ + false_text());
    }
}

impl Value {
    /// A copy of the value; lists and closures are shared.
    pub fn duplicate(&self) -> (r: Value)
        ensures
            r == *self,
    {
        match self {
            Value::Int(i) => Value::Int(*i),
            Value::Boolean(b) => Value::Boolean(*b),
            Value::Str(s) => Value::Str(s.clone()),
            Value::Function(n) => Value::Function(*n),
            Value::LazyFunction(n) => Value::LazyFunction(*n),
            Value::EnvMutatingFunction(n) => Value::EnvMutatingFunction(*n),
            Value::Closure(c) => Value::Closure(Rc::clone(c)),
            Value::List(items) => Value::List(Rc::clone(items)),
            Value::Unit => Value::Unit,
        }
    }

    /// The value that a literal token denotes.
    pub fn parse(token: &Token) -> (r: Result<Value, RuntimeError>)
        ensures
            match literal_value(token@) {
                Ok(v) => r matches Ok(x) && x@ == v,
                Err(k) => r matches Err(e) && e.kind == k,
            },
    {
        match token {
            Token::IntLiteral(v) => Ok(Value::Int(*v)),
            Token::StringLiteral(s) => Ok(Value::Str(s.clone())),
            _ => RuntimeError::new(
                RuntimeErrorKind::InvalidNode,
                "Could not convert a token to a value.",
            ),
        }
    }

    pub fn is_callable(&self) -> (r: bool)
        ensures
            r == is_callable_view(self@),
    {
        match self {
            Value::Closure(_) | Value::Function(_) | Value::LazyFunction(_)
            | Value::EnvMutatingFunction(_) => true,
            _ => false,
        }
    }

    /// Appends the text of the value to `out`, or returns `false` where it has none.
    fn push_text(&self, out: &mut Vec<char>) -> (r: bool)
        ensures
            match text_of(self@) {
                Some(t) => r && final(out)@ == old(out)@ + t,
                None => !r,
            },
        decreases self,
    {
        match self {
            Value::Int(i) => {
                push_decimal(*i, out);
                true
            },
            Value::Boolean(b) => {
                push_text_literal(out, *b);
                true
            },
            Value::Str(s) => {
                assert(text_of(self@) == Some(s@));
                let cs = chars_of(s.as_str());
                let mut i: usize = 0;
                let ghost start = out@;
                while i < cs.len()
                    invariant
                        i <= cs@.len(),
                        cs@ == s@,
                        out@ == start + cs@.take(i as int),
                    decreases cs@.len() - i,
                {
                    out.push(cs[i]);
                    i = i + 1;
                    assert(out@ =~= start + cs@.take(i as int));
                }
                assert(cs@.take(i as int) =~= cs@);
                true
            },
            Value::List(items) => {
                let ghost vs = values_view(items@);
                assert(self@ == ValueView::List(vs)) by {
                    assert(self@->List_0 =~= vs);
                }
                let ghost start = out@;
                out.push('(');
                let mut i: usize = 0;
                while i < items.len()
                    invariant
                        i <= items@.len(),
                        forall|k: int| 0 <= k < items@.len() ==> decreases_to!(*self => items@[k]),
                        vs == values_view(items@),
                        self@ == ValueView::List(vs),
                        join_items(vs, i as nat) matches Some(t) && out@ == start + seq!['('] + t,
                    decreases items@.len() - i,
                {
                    if i > 0 {
                        out.push(' ');
                    }
                    let ok = items[i].push_text(out);
                    if !ok {
                        proof {
                            assert(vs[i as int] == items@[i as int]@);
                            assert(join_items(vs, i as nat + 1) is None);
                            lemma_join_items_none(vs, i as nat + 1, vs.len());
                            assert(join_items(vs, vs.len()) is None);
                            assert(text_of(ValueView::List(vs)) is None);
                        }
                        return false;
                    }
                    i = i + 1;
                    assert(out@ =~= start + seq!['('] + join_items(vs, i as nat)->Some_0);
                }
                out.push(')');
                assert(out@ =~= old(out)@ + text_of(self@)->Some_0);
                true
            },
            _ => false,
        }
    }

    /// The text of the value, for `str` and `write`.
    pub fn runtime_to_str(&self) -> (r: Result<String, RuntimeError>)
        ensures
            match text_of(self@) {
                Some(t) => r matches Ok(s) && s@ == t,
                None => r matches Err(e) && e.kind == RuntimeErrorKind::NotPrintable,
            },
    {
        let mut out: Vec<char> = Vec::new();
        if self.push_text(&mut out) {
            assert(out@ =~= Seq::<char>::empty() + text_of(self@)->Some_0);
            Ok(string_of(&out))
        } else {
            RuntimeError::new(
                RuntimeErrorKind::NotPrintable,
                "Unit and callable values have no text.",
            )
        }
    }
}

/// Once a prefix of the items has no text, no longer prefix has one.
proof fn lemma_join_items_none(items: Seq<ValueView>, n: nat, m: nat)
    requires
        n <= m <= items.len(),
        join_items(items, n) is None,
    ensures
        join_items(items, m) is None,
    decreases m - n,
{
    if n < m {
        lemma_join_items_none(items, n, (m - 1) as nat);
    }
}

} // verus!
