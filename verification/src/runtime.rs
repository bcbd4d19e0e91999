//! Runtime values and the environment that binds names to them.

use std::rc::Rc;
use vstd::prelude::*;
use crate::ast::{Expr, ExprView};
use crate::token::Numeral;

verus! {

/// The four arithmetic operations.
#[derive(Clone, Copy, Debug, PartialEq, Eq)]
pub enum Operator {
    Add,
    Subtract,
    Multiply,
    Divide,
}

/// A number, given as the arithmetic that yields it: a numeral, a truth
/// value taken as a number (one for true, zero for false), or an operation
/// on two numbers.
///
/// Evaluation settles which operations are applied to which operands and in
/// which order. No step of it depends on what an operation yields, so the
/// operations themselves are left to whoever reads the value.
///
/// Operands are shared: a copy of a number holds the same operands, not
/// copies of them, so a number that is used twice takes its room once.
#[derive(Debug, PartialEq)]
pub enum Computation {
    Numeral(Numeral),
    Truth(bool),
    Apply { op: Operator, left: Rc<Computation>, right: Rc<Computation> },
}

/// The model of a [`Computation`].
pub enum ComputationView {
    Numeral(Seq<char>),
    Truth(bool),
    Apply { op: Operator, left: Box<ComputationView>, right: Box<ComputationView> },
}

impl Computation {
    /// The model of this computation.
    pub open spec fn model(&self) -> ComputationView
        decreases self,
    {
        match self {
            Computation::Numeral(numeral) => ComputationView::Numeral(numeral@),
            Computation::Truth(truth) => ComputationView::Truth(*truth),
            Computation::Apply { op, left, right } => ComputationView::Apply {
                op: *op,
                left: Box::new(left.model()),
                right: Box::new(right.model()),
            },
        }
    }
}

impl View for Computation {
    type V = ComputationView;

    open spec fn view(&self) -> ComputationView {
        self.model()
    }
}

/// `Rc::clone`: one more pointer to the value that `operand` points to.
#[verifier::external_body]
fn shared(operand: &Rc<Computation>) -> (r: Rc<Computation>)
    ensures
        r == *operand,
{
    Rc::clone(operand)
}

impl Clone for Computation {
    fn clone(&self) -> (r: Self)
        ensures
            r@ == self@,
    {
        match self {
            Computation::Numeral(numeral) => Computation::Numeral(numeral.clone()),
            Computation::Truth(truth) => Computation::Truth(*truth),
            Computation::Apply { op, left, right } => Computation::Apply {
                op: *op,
                left: shared(left),
                right: shared(right),
            },
        }
    }
}

/// What an expression evaluates to.
#[derive(Debug, PartialEq)]
pub enum RuntimeValue {
    Number(Computation),
    String(String),
    Boolean(bool),
    Function { arg: Expr, body: Expr },
    Nil,
}

/// The model of a [`RuntimeValue`].
pub enum ValueView {
    Number(ComputationView),
    String(Seq<char>),
    Boolean(bool),
    Function { arg: ExprView, body: ExprView },
    Nil,
}

impl View for RuntimeValue {
    type V = ValueView;

    open spec fn view(&self) -> ValueView {
        match self {
            RuntimeValue::Number(number) => ValueView::Number(number@),
            RuntimeValue::String(text) => ValueView::String(text@),
            RuntimeValue::Boolean(truth) => ValueView::Boolean(*truth),
            RuntimeValue::Function { arg, body } => ValueView::Function { arg: arg@, body: body@ },
            RuntimeValue::Nil => ValueView::Nil,
        }
    }
}

impl Clone for RuntimeValue {
    fn clone(&self) -> (r: Self)
        ensures
            r@ == self@,
    {
        match self {
            RuntimeValue::Number(number) => RuntimeValue::Number(number.clone()),
            RuntimeValue::String(text) => RuntimeValue::String(text.clone()),
            RuntimeValue::Boolean(truth) => RuntimeValue::Boolean(*truth),
            RuntimeValue::Function { arg, body } => RuntimeValue::Function {
                arg: arg.clone(),
                body: body.clone(),
            },
            RuntimeValue::Nil => RuntimeValue::Nil,
        }
    }
}

/// The text that shows a value, for the values whose text does not depend
/// on arithmetic or on a tree: a string between double quotes, a truth value
/// as `true` or `false`, nil as `nil`.
pub open spec fn displayed(value: ValueView) -> Option<Seq<char>> {
    match value {
        ValueView::String(text) => Some("\""@ + text + "\""@),
        ValueView::Boolean(truth) => Some(
            if truth {
                "true"@
            } else {
                "false"@
            },
        ),
        ValueView::Nil => Some("nil"@),
        _ => None,
    }
}

/// The text that shows `value`, unless the value is a number or a function:
/// to show a number its arithmetic has to be carried out, and a function is
/// shown by its trees.
pub fn display_text(value: &RuntimeValue) -> (r: Option<String>)
    ensures
        match r {
            Some(text) => displayed(value@) == Some(text@),
            None => displayed(value@).is_none(),
        },
{
    match value {
        RuntimeValue::String(content) => {
            let mut text = String::from_str("\"");
            text.append(content.as_str());
            text.append("\"");
            Some(text)
        },
        RuntimeValue::Boolean(truth) => {
            if *truth {
                Some(String::from_str("true"))
            } else {
                Some(String::from_str("false"))
            }
        },
        RuntimeValue::Nil => Some(String::from_str("nil")),
        _ => None,
    }
}

/// What a name is bound to, and whether the binding may be replaced.
struct Binding {
    name: String,
    value: RuntimeValue,
    is_constant: bool,
}

/// The model of what a name is bound to.
pub struct BindingView {
    pub value: ValueView,
    pub is_constant: bool,
}

impl Binding {
    spec fn model(&self) -> BindingView {
        BindingView { value: self.value@, is_constant: self.is_constant }
    }
}

/// The model of an environment: a map from names to what they are bound to.
pub type Bindings = Map<Seq<char>, BindingView>;

/// A binding that may be replaced.
pub open spec fn variable(value: ValueView) -> BindingView {
    BindingView { value, is_constant: false }
}

/// A binding that may not be replaced.
pub open spec fn constant(value: ValueView) -> BindingView {
    BindingView { value, is_constant: true }
}

/// The bindings of a new environment: the constants `nil`, `true` and
/// `false`.
pub open spec fn initial_bindings() -> Bindings {
    Map::<Seq<char>, BindingView>::empty().insert("nil"@, constant(ValueView::Nil)).insert(
        "true"@,
        constant(ValueView::Boolean(true)),
    ).insert("false"@, constant(ValueView::Boolean(false)))
}

/// Whether `name` is bound as a constant in `env`.
pub open spec fn is_protected(env: Bindings, name: Seq<char>) -> bool {
    env.contains_key(name) && env[name].is_constant
}

/// The message for an attempt to bind a constant anew.
pub open spec fn protected_message(name: Seq<char>) -> Seq<char> {
    "Cannot modify variable '"@ + name + "'"@
}

/// What binding `name` to `value` makes of `env`: nothing, if the name is a
/// constant; else the name is bound to the value, as a variable.
pub open spec fn bound(env: Bindings, name: Seq<char>, value: ValueView) -> Bindings {
    if is_protected(env, name) {
        env
    } else {
        env.insert(name, variable(value))
    }
}

/// Binding a name that is a constant changes nothing.
pub proof fn lemma_constants_are_protected(env: Bindings, name: Seq<char>, value: ValueView)
    requires
        is_protected(env, name),
    ensures
        bound(env, name, value) == env,
{
}

/// Whatever is bound, every constant stays a constant and keeps its value.
pub proof fn lemma_constants_are_permanent(
    env: Bindings,
    constant_name: Seq<char>,
    name: Seq<char>,
    value: ValueView,
)
    requires
        is_protected(env, constant_name),
    ensures
        is_protected(bound(env, name, value), constant_name),
        bound(env, name, value)[constant_name] == env[constant_name],
{
}

/// Binding a name leaves what every other name is bound to.
pub proof fn lemma_binding_is_local(
    env: Bindings,
    name: Seq<char>,
    value: ValueView,
    other: Seq<char>,
)
    requires
        other != name,
    ensures
        bound(env, name, value).contains_key(other) == env.contains_key(other),
        env.contains_key(other) ==> bound(env, name, value)[other] == env[other],
{
}

/// The last binding of a variable wins: binding a name that is no constant
/// twice is binding it to the second value.
pub proof fn lemma_last_binding_wins(
    env: Bindings,
    name: Seq<char>,
    first: ValueView,
    second: ValueView,
)
    requires
        !is_protected(env, name),
    ensures
        !is_protected(bound(env, name, first), name),
        bound(bound(env, name, first), name, second) == bound(env, name, second),
        bound(bound(env, name, first), name, second)[name] == variable(second),
{
    assert(bound(bound(env, name, first), name, second) =~= bound(env, name, second));
}

/// In a new environment `nil`, `true` and `false` are constants, and no
/// other name is bound.
pub proof fn lemma_initial_bindings()
    ensures
        is_protected(initial_bindings(), "nil"@),
        is_protected(initial_bindings(), "true"@),
        is_protected(initial_bindings(), "false"@),
        initial_bindings()["nil"@].value == ValueView::Nil,
        initial_bindings()["true"@].value == ValueView::Boolean(true),
        initial_bindings()["false"@].value == ValueView::Boolean(false),
        forall|name: Seq<char>|
            initial_bindings().contains_key(name) ==> name == "nil"@ || name == "true"@ || name
                == "false"@,
{
    reveal_strlit("nil");
    reveal_strlit("true");
    reveal_strlit("false");
    assert("nil"@ != "true"@) by {
        assert("nil"@.len() != "true"@.len());
    }
    assert("nil"@ != "false"@) by {
        assert("nil"@.len() != "false"@.len());
    }
    assert("true"@ != "false"@) by {
        assert("true"@.len() != "false"@.len());
    }
}

spec fn distinct(entries: Seq<Binding>) -> bool {
    forall|i: int, j: int|
        0 <= i < j < entries.len() ==> (#[trigger] entries[i]).name@ != (#[trigger] entries[j]).name@
}

spec fn holds(entries: Seq<Binding>, name: Seq<char>) -> bool {
    exists|i: int| 0 <= i < entries.len() && (#[trigger] entries[i]).name@ == name
}

spec fn index_of(entries: Seq<Binding>, name: Seq<char>) -> int {
    choose|i: int| 0 <= i < entries.len() && (#[trigger] entries[i]).name@ == name
}

spec fn entries_map(entries: Seq<Binding>) -> Bindings {
    Map::new(
        |name: Seq<char>| holds(entries, name),
        |name: Seq<char>| entries[index_of(entries, name)].model(),
    )
}

proof fn lemma_index(entries: Seq<Binding>, name: Seq<char>, i: int)
    requires
        distinct(entries),
        0 <= i < entries.len(),
        entries[i].name@ == name,
    ensures
        holds(entries, name),
        index_of(entries, name) == i,
        entries_map(entries).contains_key(name),
        entries_map(entries)[name] == entries[i].model(),
{
    let j = index_of(entries, name);
    assert(0 <= j < entries.len() && entries[j].name@ == name);
    if i < j {
        assert(entries[i].name@ != entries[j].name@);
    } else if j < i {
        assert(entries[j].name@ != entries[i].name@);
    }
}

proof fn lemma_replaced(entries: Seq<Binding>, i: int, entry: Binding)
    requires
        distinct(entries),
        0 <= i < entries.len(),
        entries[i].name@ == entry.name@,
    ensures
        distinct(entries.update(i, entry)),
        entries_map(entries.update(i, entry)) == entries_map(entries).insert(
            entry.name@,
            entry.model(),
        ),
{
    let after = entries.update(i, entry);
    assert(distinct(after)) by {
        assert forall|a: int, b: int| 0 <= a < b < after.len() implies (#[trigger] after[a]).name@
            != (#[trigger] after[b]).name@ by {
            assert(after[a].name@ == entries[a].name@);
            assert(after[b].name@ == entries[b].name@);
        }
    }
    let expected = entries_map(entries).insert(entry.name@, entry.model());
    assert forall|name: Seq<char>| entries_map(after).contains_key(name) implies (
    #[trigger] expected.contains_key(name)) && expected[name] == entries_map(after)[name] by {
        let j = index_of(after, name);
        assert(after[j].name@ == entries[j].name@);
        lemma_index(after, name, j);
        lemma_index(entries, name, j);
    }
    assert forall|name: Seq<char>| #[trigger] expected.contains_key(name) implies entries_map(
        after,
    ).contains_key(name) by {
        if name == entry.name@ {
            lemma_index(after, name, i);
        } else {
            let j = index_of(entries, name);
            assert(after[j].name@ == entries[j].name@);
            lemma_index(after, name, j);
        }
    }
    assert(entries_map(after) =~= expected);
}

proof fn lemma_appended(entries: Seq<Binding>, entry: Binding)
    requires
        distinct(entries),
        !holds(entries, entry.name@),
    ensures
        distinct(entries.push(entry)),
        entries_map(entries.push(entry)) == entries_map(entries).insert(
            entry.name@,
            entry.model(),
        ),
{
    let after = entries.push(entry);
    assert(distinct(after)) by {
        assert forall|a: int, b: int| 0 <= a < b < after.len() implies (#[trigger] after[a]).name@
            != (#[trigger] after[b]).name@ by {
            if b == entries.len() {
                assert(entries[a].name@ != entry.name@);
            } else {
                assert(after[a].name@ == entries[a].name@);
                assert(after[b].name@ == entries[b].name@);
            }
        }
    }
    let expected = entries_map(entries).insert(entry.name@, entry.model());
    assert forall|name: Seq<char>| entries_map(after).contains_key(name) implies (
    #[trigger] expected.contains_key(name)) && expected[name] == entries_map(after)[name] by {
        let j = index_of(after, name);
        lemma_index(after, name, j);
        if j < entries.len() {
            assert(after[j].name@ == entries[j].name@);
            lemma_index(entries, name, j);
        }
    }
    assert forall|name: Seq<char>| #[trigger] expected.contains_key(name) implies entries_map(
        after,
    ).contains_key(name) by {
        if name == entry.name@ {
            lemma_index(after, name, entries.len() as int);
        } else {
            let j = index_of(entries, name);
            assert(after[j].name@ == entries[j].name@);
            lemma_index(after, name, j);
        }
    }
    assert(entries_map(after) =~= expected);
}

/// The names that are bound, each to a value, as a constant or as a
/// variable. No name is bound twice.
pub struct Environment {
    bindings: Vec<Binding>,
}

impl View for Environment {
    type V = Bindings;

    closed spec fn view(&self) -> Bindings {
        entries_map(self.bindings@)
    }
}

impl Environment {
    /// No name is bound twice.
    pub closed spec fn well_formed(&self) -> bool {
        distinct(self.bindings@)
    }

    /// An environment that holds the constants `nil`, `true` and `false`.
    pub fn new() -> (r: Self)
        ensures
            r.well_formed(),
            r@ == initial_bindings(),
    {
        let mut env = Environment { bindings: Vec::new() };
        assert(env@ =~= Map::<Seq<char>, BindingView>::empty());
        env.bind_const(String::from_str("nil"), RuntimeValue::Nil);
        env.bind_const(String::from_str("true"), RuntimeValue::Boolean(true));
        env.bind_const(String::from_str("false"), RuntimeValue::Boolean(false));
        env
    }

    /// Where `name` is bound, if it is.
    fn find(&self, name: &str) -> (r: Option<usize>)
        ensures
            match r {
                Some(i) => i < self.bindings@.len() && self.bindings@[i as int].name@ == name@,
                None => !holds(self.bindings@, name@),
            },
    {
        let wanted = String::from_str(name);
        let mut i: usize = 0;
        while i < self.bindings.len()
            invariant
                i <= self.bindings@.len(),
                wanted@ == name@,
                forall|k: int| 0 <= k < i ==> (#[trigger] self.bindings@[k]).name@ != name@,
            decreases self.bindings@.len() - i,
        {
            if self.bindings[i].name == wanted {
                return Some(i);
            }
            i = i + 1;
        }
        None
    }

    /// Puts `entry` in the place of the binding at `at`, or adds it.
    fn put(&mut self, at: Option<usize>, entry: Binding)
        requires
            old(self).well_formed(),
            match at {
                Some(i) => i < old(self).bindings@.len() && old(self).bindings@[i as int].name@
                    == entry.name@,
                None => !holds(old(self).bindings@, entry.name@),
            },
        ensures
            final(self).well_formed(),
            final(self)@ == old(self)@.insert(entry.name@, entry.model()),
    {
        match at {
            Some(i) => {
                proof {
                    lemma_replaced(self.bindings@, i as int, entry);
                }
                self.bindings.set(i, entry);
            },
            None => {
                proof {
                    lemma_appended(self.bindings@, entry);
                }
                self.bindings.push(entry);
            },
        }
    }

    fn bind_const(&mut self, name: String, value: RuntimeValue)
        requires
            old(self).well_formed(),
        ensures
            final(self).well_formed(),
            final(self)@ == old(self)@.insert(name@, constant(value@)),
    {
        let at = self.find(name.as_str());
        self.put(at, Binding { name, value, is_constant: true });
    }

    /// Binds `name` to `value` as a variable, unless the name is bound as a
    /// constant: then nothing changes and the error says so.
    pub fn bind(&mut self, name: String, value: RuntimeValue) -> (r: Result<(), String>)
        requires
            old(self).well_formed(),
        ensures
            final(self).well_formed(),
            final(self)@ == bound(old(self)@, name@, value@),
            match r {
                Ok(_) => !is_protected(old(self)@, name@),
                Err(message) => is_protected(old(self)@, name@) && message@ == protected_message(
                    name@,
                ),
            },
    {
        let at = self.find(name.as_str());
        match at {
            Some(i) => {
                proof {
                    lemma_index(self.bindings@, name@, i as int);
                }
                if self.bindings[i].is_constant {
                    let mut message = String::from_str("Cannot modify variable '");
                    message.append(name.as_str());
                    message.append("'");
                    return Err(message);
                }
            },
            None => {},
        }
        self.put(at, Binding { name, value, is_constant: false });
        Ok(())
    }

    /// The value that `name` is bound to, if it is bound.
    pub fn resolve(&self, name: &str) -> (r: Option<&RuntimeValue>)
        requires
            self.well_formed(),
        ensures
            match r {
                Some(value) => self@.contains_key(name@) && value@ == self@[name@].value,
                None => !self@.contains_key(name@),
            },
    {
        match self.find(name) {
            Some(i) => {
                proof {
                    lemma_index(self.bindings@, name@, i as int);
                }
                Some(&self.bindings[i].value)
            },
            None => None,
        }
    }
}

} // verus!
