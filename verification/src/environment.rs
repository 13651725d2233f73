//! Lexical scopes: a chain of name-to-value tables, innermost first.

use crate::data::{Data, DataView};
use crate::scanner::Token;
use vstd::prelude::*;
use vstd::string::StringExecFns;

verus! {

/// One scope as a map from names to values.
pub type Scope = Map<Seq<char>, DataView>;

/// A scope together with the scopes that enclose it.
///
/// `values` lists the bindings of this scope; where a name occurs more than
/// once, the later entry is the binding.
#[derive(Debug, PartialEq)]
pub struct Environment {
    pub enclosing: Option<Box<Environment>>,
    pub values: Vec<(String, Data)>,
}

#[derive(Debug, PartialEq)]
pub enum Error {
    Undefined(String),
}

/// How the error is written.
pub open spec fn undefined_text(name: Seq<char>) -> Seq<char> {
    "Undefined variable: '"@ + name + "'."@
}

impl Error {
    /// Writes the error.
    pub fn to_text(&self) -> (r: String)
        ensures
            self matches Error::Undefined(name) && r@ == undefined_text(name@),
    {
        match self {
            Error::Undefined(name) => {
                let mut text = String::from_str("Undefined variable: '");
                text.append(name.as_str());
                text.append("'.");
                text
            },
        }
    }
}

/// The map that a list of bindings stands for.
pub open spec fn bindings(entries: Seq<(String, Data)>) -> Scope
    decreases entries.len(),
{
    if entries.len() == 0 {
        Map::empty()
    } else {
        bindings(entries.drop_last()).insert(entries.last().0@, entries.last().1@)
    }
}

/// The value that the nearest scope defining `name` gives it.
pub open spec fn lookup(chain: Seq<Scope>, name: Seq<char>) -> Option<DataView>
    decreases chain.len(),
{
    if chain.len() == 0 {
        None
    } else if chain[0].contains_key(name) {
        Some(chain[0][name])
    } else {
        lookup(chain.drop_first(), name)
    }
}

/// The chain after `name` is bound to `value` in the innermost scope.
pub open spec fn defined(chain: Seq<Scope>, name: Seq<char>, value: DataView) -> Seq<Scope> {
    chain.update(0, chain[0].insert(name, value))
}

/// The chain after the nearest scope defining `name` rebinds it to `value`;
/// `None` where no scope defines it.
pub open spec fn assigned(chain: Seq<Scope>, name: Seq<char>, value: DataView) -> Option<
    Seq<Scope>,
>
    decreases chain.len(),
{
    if chain.len() == 0 {
        None
    } else if chain[0].contains_key(name) {
        Some(chain.update(0, chain[0].insert(name, value)))
    } else {
        match assigned(chain.drop_first(), name, value) {
            Some(rest) => Some(seq![chain[0]] + rest),
            None => None,
        }
    }
}

/// A name reads as it was last defined in the innermost scope, and a
/// definition changes what no other name reads as.
pub proof fn lemma_define_then_get(
    chain: Seq<Scope>,
    name: Seq<char>,
    value: DataView,
    other: Seq<char>,
)
    requires
        chain.len() >= 1,
    ensures
        lookup(defined(chain, name, value), name) == Some(value),
        other != name ==> lookup(defined(chain, name, value), other) == lookup(chain, other),
        defined(chain, name, value).drop_first() == chain.drop_first(),
{
    let after = defined(chain, name, value);
    assert(after.drop_first() =~= chain.drop_first());
}

/// Assignment succeeds exactly where the name reads as something; it then
/// reads as the new value, and no scope has gained or lost a name.
pub proof fn lemma_assign_needs_definition(chain: Seq<Scope>, name: Seq<char>, value: DataView)
    ensures
        assigned(chain, name, value) is Some <==> lookup(chain, name) is Some,
        assigned(chain, name, value) matches Some(after) ==> {
            &&& lookup(after, name) == Some(value)
            &&& after.len() == chain.len()
            &&& forall|i: int| 0 <= i < chain.len() ==> (#[trigger] after[i]).dom() =~= chain[i].dom()
        },
    decreases chain.len(),
{
    if chain.len() > 0 {
        if chain[0].contains_key(name) {
            let after = chain.update(0, chain[0].insert(name, value));
            assert(after[0].dom() =~= chain[0].dom());
        } else {
            lemma_assign_needs_definition(chain.drop_first(), name, value);
            match assigned(chain.drop_first(), name, value) {
                Some(rest) => {
                    let after = seq![chain[0]] + rest;
                    assert(after.drop_first() =~= rest);
                    assert forall|i: int| 0 <= i < chain.len() implies (#[trigger] after[i]).dom()
                        =~= chain[i].dom() by {
                        if i > 0 {
                            assert(after[i] == rest[i - 1]);
                            assert(chain[i] == chain.drop_first()[i - 1]);
                        }
                    }
                },
                None => {},
            }
        }
    }
}

/// Shadowing: what a block defines is gone when its scope is dropped, and
/// every name reads as it did before the block.
pub proof fn lemma_shadowing_ends_with_the_scope(
    chain: Seq<Scope>,
    name: Seq<char>,
    value: DataView,
    other: Seq<char>,
)
    ensures
        lookup(defined(seq![Map::<Seq<char>, DataView>::empty()] + chain, name, value), name)
            == Some(value),
        lookup(
            defined(seq![Map::<Seq<char>, DataView>::empty()] + chain, name, value).drop_first(),
            other,
        ) == lookup(chain, other),
{
    let inner = seq![Map::<Seq<char>, DataView>::empty()] + chain;
    assert(defined(inner, name, value).drop_first() =~= chain);
}

/// Whether `at` is the last entry of `entries` that binds `name`.
pub open spec fn binds_last(entries: Seq<(String, Data)>, name: Seq<char>, at: int) -> bool {
    &&& 0 <= at < entries.len()
    &&& entries[at].0@ == name
    &&& forall|j: int| at < j < entries.len() ==> entries[j].0@ != name
}

/// A name that no entry binds is not in the map.
pub proof fn lemma_unbound(entries: Seq<(String, Data)>, name: Seq<char>)
    requires
        forall|j: int| 0 <= j < entries.len() ==> entries[j].0@ != name,
    ensures
        !bindings(entries).contains_key(name),
    decreases entries.len(),
{
    if entries.len() > 0 {
        lemma_unbound(entries.drop_last(), name);
    }
}

/// The map gives a name the value of the last entry that binds it.
pub proof fn lemma_bound(entries: Seq<(String, Data)>, name: Seq<char>, at: int)
    requires
        binds_last(entries, name, at),
    ensures
        bindings(entries).contains_key(name),
        bindings(entries)[name] == entries[at].1@,
    decreases entries.len(),
{
    if at < entries.len() - 1 {
        lemma_bound(entries.drop_last(), name, at);
    }
}

/// Replacing the value of the last entry that binds a name rebinds the name
/// in the map and leaves every other name alone.
pub proof fn lemma_rebound(
    entries: Seq<(String, Data)>,
    at: int,
    entry: (String, Data),
)
    requires
        binds_last(entries, entry.0@, at),
    ensures
        bindings(entries.update(at, entry)) == bindings(entries).insert(entry.0@, entry.1@),
    decreases entries.len(),
{
    let after = entries.update(at, entry);
    if at == entries.len() - 1 {
        assert(after.drop_last() == entries.drop_last());
    } else {
        assert(after.drop_last() == entries.drop_last().update(at, entry));
        lemma_rebound(entries.drop_last(), at, entry);
    }
    assert(bindings(after) =~= bindings(entries).insert(entry.0@, entry.1@));
}

/// The index of the last entry that binds `name`, if any does.
fn find(entries: &Vec<(String, Data)>, name: &String) -> (r: Option<usize>)
    ensures
        match r {
            Some(at) => binds_last(entries@, name@, at as int),
            None => forall|j: int| 0 <= j < entries@.len() ==> entries@[j].0@ != name@,
        },
{
    let mut i: usize = entries.len();
    while i > 0
        invariant
            i <= entries@.len(),
            forall|j: int| i <= j < entries@.len() ==> entries@[j].0@ != name@,
        decreases i,
    {
        i -= 1;
        if entries[i].0 == *name {
            return Some(i);
        }
    }
    None
}

impl View for Environment {
    type V = Seq<Scope>;

    /// The scopes of the chain, this one first.
    open spec fn view(&self) -> Seq<Scope>
        decreases self,
    {
        seq![bindings(self.values@)] + match self.enclosing {
            Some(outer) => (*outer)@,
            None => Seq::empty(),
        }
    }
}

impl Environment {
    /// The chain of scopes that encloses this one.
    pub open spec fn outer(&self) -> Seq<Scope> {
        match self.enclosing {
            Some(outer) => (*outer)@,
            None => Seq::empty(),
        }
    }

    /// The chain is this scope followed by the enclosing chain.
    pub proof fn lemma_chain(&self)
        ensures
            self@.len() == 1 + self.outer().len(),
            self@[0] == bindings(self.values@),
            self@.drop_first() == self.outer(),
            self@ == seq![bindings(self.values@)] + self.outer(),
    {
        assert(self@.drop_first() =~= self.outer());
    }

    /// A single scope without bindings.
    pub fn new() -> (r: Environment)
        ensures
            r@ == seq![Map::<Seq<char>, DataView>::empty()],
            r.enclosing is None,
    {
        let r = Environment { enclosing: None, values: Vec::new() };
        assert(r@ =~= seq![Map::<Seq<char>, DataView>::empty()]);
        r
    }

    /// Binds `name` in this scope, whether or not it was bound before.
    #[verifier::rlimit(50)]
    pub fn define(&mut self, name: String, value: Data)
        ensures
            final(self)@ == defined(old(self)@, name@, value@),
            final(self).enclosing == old(self).enclosing,
    {
        let ghost before = self.values@;
        proof {
            self.lemma_chain();
        }
        match find(&self.values, &name) {
            Some(at) => {
                proof {
                    lemma_rebound(before, at as int, (name, value));
                }
                self.values.set(at, (name, value));
            },
            None => {
                self.values.push((name, value));
                assert(self.values@.drop_last() == before);
            },
        }
        proof {
            self.lemma_chain();
            assert(bindings(self.values@) == bindings(before).insert(name@, value@));
            assert(self@ =~= defined(old(self)@, name@, value@));
        }
    }

    /// The value of `name` in the nearest scope that defines it.
    #[verifier::rlimit(50)]
    pub fn get(&self, name: &Token) -> (r: Result<Data, Error>)
        ensures
            match lookup(self@, name.lexeme@) {
                Some(value) => r matches Ok(found) && found@ == value,
                None => r matches Err(Error::Undefined(missing)) && missing@ == name.lexeme@,
            },
        decreases self,
    {
        proof {
            self.lemma_chain();
        }
        match find(&self.values, &name.lexeme) {
            Some(at) => {
                proof {
                    lemma_bound(self.values@, name.lexeme@, at as int);
                }
                Ok(self.values[at].1.clone())
            },
            None => {
                proof {
                    lemma_unbound(self.values@, name.lexeme@);
                }
                match &self.enclosing {
                    Some(outer) => outer.get(name),
                    None => {
                        assert(lookup(self@.drop_first(), name.lexeme@) is None);
                        Err(Error::Undefined(name.lexeme.clone()))
                    },
                }
            },
        }
    }

    /// Rebinds `name` in the nearest scope that defines it, and fails where
    /// none does: assignment creates no binding.
    #[verifier::rlimit(50)]
    pub fn assign(&mut self, name: &Token, value: &Data) -> (r: Result<(), Error>)
        ensures
            match assigned(old(self)@, name.lexeme@, value@) {
                Some(chain) => r is Ok && final(self)@ == chain,
                None => {
                    &&& r matches Err(Error::Undefined(missing))
                    &&& missing@ == name.lexeme@
                    &&& final(self)@ == old(self)@
                },
            },
        decreases *old(self),
    {
        let ghost before = self.values@;
        proof {
            self.lemma_chain();
        }
        match find(&self.values, &name.lexeme) {
            Some(at) => {
                let entry: (String, Data) = (name.lexeme.clone(), value.clone());
                proof {
                    lemma_bound(before, name.lexeme@, at as int);
                    lemma_rebound(before, at as int, entry);
                }
                self.values.set(at, entry);
                proof {
                    self.lemma_chain();
                    assert(self@ =~= old(self)@.update(
                        0,
                        old(self)@[0].insert(name.lexeme@, value@),
                    ));
                }
                Ok(())
            },
            None => {
                proof {
                    lemma_unbound(before, name.lexeme@);
                }
                match &mut self.enclosing {
                    Some(outer) => {
                        let r = outer.assign(name, value);
                        proof {
                            self.lemma_chain();
                        }
                        r
                    },
                    None => {
                        assert(assigned(old(self)@.drop_first(), name.lexeme@, value@) is None);
                        Err(Error::Undefined(name.lexeme.clone()))
                    },
                }
            },
        }
    }
}

/// A copy of a list of bindings.
fn clone_bindings(list: &Vec<(String, Data)>) -> (r: Vec<(String, Data)>)
    ensures
        r@ == list@,
{
    let mut copies: Vec<(String, Data)> = Vec::new();
    let mut i: usize = 0;
    while i < list.len()
        invariant
            i <= list@.len(),
            copies@ == list@.take(i as int),
        decreases list@.len() - i,
    {
        copies.push((list[i].0.clone(), list[i].1.clone()));
        assert(copies@ =~= list@.take(i + 1));
        i += 1;
    }
    assert(list@.take(i as int) =~= list@);
    copies
}

impl Clone for Environment {
    fn clone(&self) -> (r: Self)
        ensures
            r@ == self@,
        decreases self,
    {
        let enclosing: Option<Box<Environment>> = match &self.enclosing {
            Some(outer) => Some(Box::new((**outer).clone())),
            None => None,
        };
        let r = Environment { enclosing, values: clone_bindings(&self.values) };
        proof {
            self.lemma_chain();
            r.lemma_chain();
        }
        r
    }
}

} // verus!
