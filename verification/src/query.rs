//! Database queries as plain values: a text and its bound parameters.

use vstd::prelude::*;

verus! {

/// A bound value. `E` is what an embedding is; `S` is `String` in running code
/// and `Seq<char>` in its model.
#[derive(Debug, PartialEq)]
pub enum Value<E = (), S = String> {
    Text(S),
    Number(u64),
    Embedding(Option<E>),
}

impl<E> View for Value<E> {
    type V = Value<E, Seq<char>>;

    open spec fn view(&self) -> Value<E, Seq<char>> {
        match *self {
            Value::Text(s) => Value::Text(s@),
            Value::Number(n) => Value::Number(n),
            Value::Embedding(e) => Value::Embedding(e),
        }
    }
}

/// A parameter of a query: its name (without the `$`) and its value.
#[derive(Debug, PartialEq)]
pub struct Bind<E = (), S = String> {
    pub name: S,
    pub value: Value<E, S>,
}

impl<E> View for Bind<E> {
    type V = Bind<E, Seq<char>>;

    open spec fn view(&self) -> Bind<E, Seq<char>> {
        Bind { name: self.name@, value: self.value@ }
    }
}

/// A query: its text and its parameters, each bound once.
#[derive(Debug, PartialEq)]
pub struct Query<E = ()> {
    pub text: String,
    pub binds: Vec<Bind<E>>,
}

/// The model of a query.
pub struct QueryModel<E> {
    pub text: Seq<char>,
    pub binds: Seq<Bind<E, Seq<char>>>,
}

impl<E> View for Query<E> {
    type V = QueryModel<E>;

    open spec fn view(&self) -> QueryModel<E> {
        QueryModel { text: self.text@, binds: self.binds@.map_values(|b: Bind<E>| b@) }
    }
}

/// The parameter `name` bound to a text.
pub open spec fn text_bind<E>(name: Seq<char>, value: Seq<char>) -> Bind<E, Seq<char>> {
    Bind { name, value: Value::Text(value) }
}

/// A query without parameters.
pub open spec fn bare<E>(text: Seq<char>) -> QueryModel<E> {
    QueryModel { text, binds: Seq::empty() }
}

impl<E> QueryModel<E> {
    /// The query with one more parameter.
    pub open spec fn bound(self, b: Bind<E, Seq<char>>) -> QueryModel<E> {
        QueryModel { text: self.text, binds: self.binds.push(b) }
    }

    /// The query with the parameter `name` bound to a text.
    pub open spec fn with_text(self, name: Seq<char>, value: Seq<char>) -> QueryModel<E> {
        self.bound(text_bind(name, value))
    }

    /// The value of the first parameter called `name`.
    pub open spec fn value_of(self, name: Seq<char>) -> Option<Value<E, Seq<char>>>
        decreases self.binds.len(),
    {
        if self.binds.len() == 0 {
            None
        } else if self.binds[0].name == name {
            Some(self.binds[0].value)
        } else {
            QueryModel { text: self.text, binds: self.binds.drop_first() }.value_of(name)
        }
    }

    /// The text that the parameter `name` is bound to.
    pub open spec fn text_of(self, name: Seq<char>) -> Seq<char> {
        match self.value_of(name) {
            Some(Value::Text(t)) => t,
            _ => Seq::empty(),
        }
    }
}

impl<E> Query<E> {
    /// A query without parameters.
    pub fn new(text: &str) -> (r: Query<E>)
        ensures
            r@ == bare::<E>(text@),
    {
        let r = Query { text: text.to_owned(), binds: Vec::new() };
        assert(r@.binds =~= Seq::empty());
        r
    }

    /// Binds one more parameter.
    pub fn bind(self, name: &str, value: Value<E>) -> (r: Query<E>)
        ensures
            r@ == self@.bound(Bind { name: name@, value: value@ }),
    {
        let mut binds = self.binds;
        binds.push(Bind { name: name.to_owned(), value });
        let r = Query { text: self.text, binds };
        assert(r@.binds =~= self@.binds.push(Bind { name: name@, value: value@ }));
        r
    }

    /// Binds one more parameter to a text.
    pub fn bind_text(self, name: &str, value: &str) -> (r: Query<E>)
        ensures
            r@ == self@.with_text(name@, value@),
    {
        self.bind(name, Value::Text(value.to_owned()))
    }
}

} // verus!
