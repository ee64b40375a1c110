//! Runtime values, the local environment chain and the global environment.
use std::rc::Rc;
use vstd::prelude::*;
use vstd::string::StringExecFns;

use super::locally_nameless_tree::{Lambda, Term};
use crate::text::{int_text, string_of, text_of_i64};

verus! {

/// What a function value does when it is called.
pub enum RTFunction {
    /// A lambda with the local environment chain in force where it was made.
    Closure(Rc<Lambda>, Locals),
    /// Curried addition, waiting for its first operand.
    Plus,
    /// Addition of a known first operand.
    PlusWith(i64),
    /// Repetition, waiting for a count.
    Repeatedly,
    /// Repetition of a known count, waiting for a function.
    RepeatedlyTimes(i64),
    /// Calls the function the given number of times on its argument.
    RepeatedlyApply(i64, Rc<RTFunction>),
}

pub enum RTValue {
    Function(RTFunction),
    Integer(i64),
}

/// One frame of the local environment chain.
pub struct RTFrame {
    pub var: RTValue,
    pub parent: Option<Rc<RTFrame>>,
}

/// A persistent chain of frames, innermost first; frames are shared and never changed.
pub struct Locals {
    pub locals: Option<Rc<RTFrame>>,
}

/// What a function value stands for.
pub enum FnView {
    Closure(Term, Seq<ValueView>),
    Plus,
    PlusWith(i64),
    Repeatedly,
    RepeatedlyTimes(i64),
    RepeatedlyApply(i64, Box<FnView>),
}

/// What a runtime value stands for: closures by their body and environment.
pub enum ValueView {
    Function(FnView),
    Integer(i64),
}

pub open spec fn value_view(v: RTValue) -> ValueView
    decreases v,
{
    match v {
        RTValue::Function(f) => ValueView::Function(function_view(f)),
        RTValue::Integer(i) => ValueView::Integer(i),
    }
}

pub open spec fn function_view(f: RTFunction) -> FnView
    decreases f,
{
    match f {
        RTFunction::Closure(lambda, env) => FnView::Closure(
            super::locally_nameless_tree::Expr::deep_view(&lambda.body),
            frames_view(env.locals),
        ),
        RTFunction::Plus => FnView::Plus,
        RTFunction::PlusWith(i) => FnView::PlusWith(i),
        RTFunction::Repeatedly => FnView::Repeatedly,
        RTFunction::RepeatedlyTimes(n) => FnView::RepeatedlyTimes(n),
        RTFunction::RepeatedlyApply(n, g) => FnView::RepeatedlyApply(n, Box::new(function_view(*g))),
    }
}

pub open spec fn frames_view(frames: Option<Rc<RTFrame>>) -> Seq<ValueView>
    decreases frames,
{
    match frames {
        None => Seq::empty(),
        Some(frame) => seq![value_view(frame.var)] + frames_view(frame.parent),
    }
}

impl DeepView for RTValue {
    type V = ValueView;

    open spec fn deep_view(&self) -> ValueView {
        value_view(*self)
    }
}

impl DeepView for Locals {
    type V = Seq<ValueView>;

    open spec fn deep_view(&self) -> Seq<ValueView> {
        frames_view(self.locals)
    }
}

/// The text a value prints as.
pub open spec fn display(v: ValueView) -> Seq<char> {
    match v {
        ValueView::Function(_) => "<Function>"@,
        ValueView::Integer(i) => int_text(i as int),
    }
}

impl RTFunction {
    /// Another handle on the same function; closures share their body and frames.
    pub fn duplicate(&self) -> (r: RTFunction)
        ensures
            r == *self,
    {
        match self {
            RTFunction::Closure(lambda, env) => RTFunction::Closure(Rc::clone(lambda), env.duplicate()),
            RTFunction::Plus => RTFunction::Plus,
            RTFunction::PlusWith(i) => RTFunction::PlusWith(*i),
            RTFunction::Repeatedly => RTFunction::Repeatedly,
            RTFunction::RepeatedlyTimes(n) => RTFunction::RepeatedlyTimes(*n),
            RTFunction::RepeatedlyApply(n, g) => RTFunction::RepeatedlyApply(*n, Rc::clone(g)),
        }
    }
}

impl RTValue {
    /// Another handle on the same value.
    pub fn duplicate(&self) -> (r: RTValue)
        ensures
            r == *self,
    {
        match self {
            RTValue::Function(f) => RTValue::Function(f.duplicate()),
            RTValue::Integer(i) => RTValue::Integer(*i),
        }
    }

    /// The printed form: the decimal value of an integer, a placeholder for a function.
    pub fn to_text(&self) -> (r: String)
        ensures
            r@ == display(self.deep_view()),
    {
        match self {
            RTValue::Function(_) => {
                let mut text = String::new();
                text.append("<Function>");
                text
            },
            RTValue::Integer(i) => {
                let digits = text_of_i64(*i);
                string_of(digits.as_slice())
            },
        }
    }
}

impl Locals {
    pub fn empty() -> (r: Self)
        ensures
            r.deep_view() == Seq::<ValueView>::empty(),
    {
        Locals { locals: None }
    }

    /// Another handle on the same chain.
    pub fn duplicate(&self) -> (r: Self)
        ensures
            r == *self,
    {
        match &self.locals {
            None => Locals { locals: None },
            Some(frame) => Locals { locals: Some(Rc::clone(frame)) },
        }
    }

    /// This chain with one more frame, holding `arg`, in front.
    pub fn bind_local(&self, arg: RTValue) -> (r: Locals)
        ensures
            r.deep_view() == seq![arg.deep_view()] + self.deep_view(),
    {
        let parent = self.duplicate();
        Locals { locals: Some(Rc::new(RTFrame { var: arg, parent: parent.locals })) }
    }

    /// The value `de_brujn_index` frames out from the innermost one.
    pub fn lookup(&self, de_brujn_index: usize) -> (r: Option<RTValue>)
        ensures
            r matches Some(v) ==> de_brujn_index < self.deep_view().len() && v.deep_view()
                == self.deep_view()[de_brujn_index as int],
            r is None ==> de_brujn_index >= self.deep_view().len(),
    {
        let mut frame = match &self.locals {
            None => return None,
            Some(frame) => Rc::clone(frame),
        };
        let mut i: usize = de_brujn_index;
        assert(self.deep_view().skip(0) =~= self.deep_view());
        while i != 0
            invariant
                i <= de_brujn_index,
                de_brujn_index - i < self.deep_view().len(),
                frames_view(Some(frame)) == self.deep_view().skip(de_brujn_index - i),
            decreases i,
        {
            let ghost view = self.deep_view();
            let ghost k = de_brujn_index - i;
            let next = match &frame.parent {
                None => {
                    assert(frames_view(frame.parent) =~= Seq::<ValueView>::empty());
                    assert(frames_view(Some(frame)).len() == 1);
                    assert(view.skip(k).len() == 1);
                    return None;
                },
                Some(parent) => Rc::clone(parent),
            };
            assert(frames_view(Some(next)) =~= frames_view(Some(frame)).drop_first());
            assert(frames_view(Some(next)).len() >= 1);
            assert(view.skip(k).len() >= 2);
            assert(view.skip(k).drop_first() =~= view.skip(k + 1));
            frame = next;
            i = i - 1;
        }
        assert(frames_view(Some(frame))[0] == value_view(frame.var));
        Some(frame.var.duplicate())
    }
}

/// The global environment: a log of bindings in which the latest binding of a name wins.
pub struct Globals {
    pub globals: Vec<(String, RTValue)>,
}

/// The value that the latest of `bindings` for `name` holds.
pub open spec fn latest_binding(bindings: Seq<(String, RTValue)>, name: Seq<char>) -> Option<RTValue>
    decreases bindings.len(),
{
    if bindings.len() == 0 {
        None
    } else if bindings.last().0@ == name {
        Some(bindings.last().1)
    } else {
        latest_binding(bindings.drop_last(), name)
    }
}

impl Globals {
    pub fn new() -> (r: Self)
        ensures
            forall|name: Seq<char>| #[trigger] r.spec_lookup(name) is None,
    {
        Globals { globals: Vec::new() }
    }

    /// The value bound to `name`, if any.
    pub open spec fn spec_lookup(&self, name: Seq<char>) -> Option<ValueView> {
        match latest_binding(self.globals@, name) {
            Some(v) => Some(value_view(v)),
            None => None,
        }
    }

    pub fn lookup(&self, name: &str) -> (r: Option<RTValue>)
        ensures
            r matches Some(v) ==> self.spec_lookup(name@) == Some(v.deep_view()),
            r is None ==> self.spec_lookup(name@) is None,
    {
        let mut k: usize = self.globals.len();
        assert(self.globals@.take(k as int) =~= self.globals@);
        while k > 0
            invariant
                k <= self.globals@.len(),
                latest_binding(self.globals@, name@) == latest_binding(
                    self.globals@.take(k as int),
                    name@,
                ),
            decreases k,
        {
            let ghost prefix = self.globals@.take(k as int);
            assert(prefix.drop_last() =~= self.globals@.take(k - 1));
            if same_text(self.globals[k - 1].0.as_str(), name) {
                return Some(self.globals[k - 1].1.duplicate());
            }
            k = k - 1;
        }
        None
    }

    /// Binds `name` to `val`, replacing any earlier binding of it.
    pub fn define(&mut self, name: &str, val: RTValue)
        ensures
            final(self).spec_lookup(name@) == Some(val.deep_view()),
            forall|other: Seq<char>|
                other != name@ ==> #[trigger] final(self).spec_lookup(other) == old(self).spec_lookup(
                    other,
                ),
    {
        let mut key = String::new();
        key.append(name);
        let ghost before = self.globals@;
        self.globals.push((key, val));
        assert(self.globals@.drop_last() =~= before);
    }
}

/// Whether `a` and `b` hold the same characters.
pub fn same_text(a: &str, b: &str) -> (r: bool)
    ensures
        r == (a@ == b@),
{
    let ac = crate::text::chars_of(a);
    let bc = crate::text::chars_of(b);
    if ac.len() != bc.len() {
        return false;
    }
    let mut i: usize = 0;
    while i < ac.len()
        invariant
            ac@ == a@,
            bc@ == b@,
            ac@.len() == bc@.len(),
            i <= ac@.len(),
            forall|j: int| 0 <= j < i ==> ac@[j] == bc@[j],
        decreases ac@.len() - i,
    {
        if ac[i] != bc[i] {
            assert(a@[i as int] != b@[i as int]);
            return false;
        }
        i = i + 1;
    }
    assert(ac@ =~= bc@);
    true
}

} // verus!
