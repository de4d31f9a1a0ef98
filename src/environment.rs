use vstd::prelude::*;

use crate::parser::names_view;
use crate::value::{Value, ValueView};
use std::rc::Rc;

verus! {

/// One binding of an environment, in front of the bindings it extends.
#[derive(Debug)]
pub struct Frame {
    pub name: String,
    pub value: Value,
    pub parent: Option<Rc<Frame>>,
}

/// The bindings that a chain of frames holds: a later frame hides an earlier one of the same name.
pub open spec fn frames_view(f: Option<Rc<Frame>>) -> Map<Seq<char>, ValueView>
    decreases f,
{
    match f {
        None => Map::empty(),
        Some(fr) => frames_view(fr.parent).insert(fr.name@, fr.value@),
    }
}

/// A persistent map from names to values. Extending it shares the bindings it extends.
#[derive(Debug)]
pub struct Environment {
    pub head: Option<Rc<Frame>>,
}

impl View for Environment {
    type V = Map<Seq<char>, ValueView>;

    open spec fn view(&self) -> Map<Seq<char>, ValueView> {
        frames_view(self.head)
    }
}

fn lookup<'a>(f: &'a Option<Rc<Frame>>, name: &String) -> (r: Option<&'a Value>)
    ensures
        match r {
            Some(v) => frames_view(*f).contains_key(name@) && v@ == frames_view(*f)[name@],
            None => !frames_view(*f).contains_key(name@),
        },
    decreases *f,
{
    match f {
        None => None,
        Some(fr) => {
            if fr.name == *name {
                Some(&fr.value)
            } else {
                lookup(&fr.parent, name)
            }
        },
    }
}

impl Environment {
    pub fn new() -> (r: Environment)
        ensures
            r@ == Map::<Seq<char>, ValueView>::empty(),
    {
        Environment { head: None }
    }

    /// A second handle on the same bindings.
    pub fn duplicate(&self) -> (r: Environment)
        ensures
            r@ == self@,
    {
        match &self.head {
            None => Environment { head: None },
            Some(f) => Environment { head: Some(Rc::clone(f)) },
        }
    }

    /// The value bound to `name`, if any.
    pub fn get(&self, name: &str) -> (r: Option<&Value>)
        ensures
            match r {
                Some(v) => self@.contains_key(name@) && v@ == self@[name@],
                None => !self@.contains_key(name@),
            },
    {
        let key = name.to_owned();
        lookup(&self.head, &key)
    }

    /// Binds `name` to `value`, hiding any earlier binding of it.
    pub fn insert(&mut self, name: &str, value: Value)
        ensures
            final(self)@ == old(self)@.insert(name@, value@),
    {
        let parent = match &self.head {
            None => None,
            Some(f) => Some(Rc::clone(f)),
        };
        self.head = Some(Rc::new(Frame { name: name.to_owned(), value, parent }));
    }

    /// A new environment: this one with `name` bound to `v`. This one is left as it is.
    pub fn extend(&self, name: &str, v: Value) -> (r: Environment)
        ensures
            r@ == self@.insert(name@, v@),
    {
        let mut new_env = self.duplicate();
        new_env.insert(name, v);
        new_env
    }
}

/// The sink that `write` sends lines to: it keeps them in memory, in order.
#[derive(Debug)]
pub struct IOStream {
    pub lines: Vec<String>,
}

impl IOStream {
    pub fn new_in_memory_buffer() -> (r: IOStream)
        ensures
            r.lines@.len() == 0,
    {
        IOStream { lines: Vec::new() }
    }

    /// Sends one line.
    pub fn write(&mut self, line: String)
        ensures
            names_view(final(self).lines@) == names_view(old(self).lines@).push(line@),
    {
        self.lines.push(line);
        assert(names_view(self.lines@) =~= names_view(old(self).lines@).push(line@));
    }
}

/// The model of a context: the lines written so far and the input lines not yet read.
pub struct CtxView {
    pub output: Seq<Seq<char>>,
    pub input: Seq<Seq<char>>,
}

/// The state of one run that lies outside lexical scope: its output and its input.
#[derive(Debug)]
pub struct Context {
    pub stdout: IOStream,
    pub stdin: Vec<String>,
    pub next_input: usize,
}

impl View for Context {
    type V = CtxView;

    open spec fn view(&self) -> CtxView {
        CtxView {
            output: names_view(self.stdout.lines@),
            input: names_view(self.stdin@).subrange(self.next_input as int, self.stdin@.len() as int),
        }
    }
}

impl Context {
    pub open spec fn wf(&self) -> bool {
        self.next_input <= self.stdin@.len()
    }

    /// A context with no input lines.
    pub fn new(stdout: IOStream) -> (r: Context)
        ensures
            r.wf(),
            r@.output == names_view(stdout.lines@),
            r@.input.len() == 0,
    {
        Context { stdout, stdin: Vec::new(), next_input: 0 }
    }

    /// A context whose `readline` calls take the given lines, in order.
    pub fn with_input(stdout: IOStream, input: Vec<String>) -> (r: Context)
        ensures
            r.wf(),
            r@.output == names_view(stdout.lines@),
            r@.input == names_view(input@),
    {
        let r = Context { stdout, stdin: input, next_input: 0 };
        assert(r@.input =~= names_view(input@));
        r
    }

    /// Takes the next input line, if any is left.
    pub fn read_line(&mut self) -> (r: Option<String>)
        requires
            old(self).wf(),
        ensures
            final(self).wf(),
            final(self)@.output == old(self)@.output,
            old(self)@.input.len() == 0 ==> r is None && final(self)@ == old(self)@,
            old(self)@.input.len() > 0 ==> (r matches Some(l) && l@ == old(self)@.input[0]
                && final(self)@.input == old(self)@.input.drop_first()),
    {
        if self.next_input < self.stdin.len() {
            let line = self.stdin[self.next_input].clone();
            self.next_input = self.next_input + 1;
            assert(self@.input =~= old(self)@.input.drop_first());
            Some(line)
        } else {
            None
        }
    }
}

} // verus!
