//! The scope chain: block-scoped bindings of names.

use vstd::hash_map::StringHashMap;
use vstd::prelude::*;

verus! {

/// A symbol table: a chain of scopes, innermost last.  A name is looked up
/// from the innermost scope outwards, and the first scope that binds it
/// decides; within one scope the latest binding of a name decides.
#[verifier::reject_recursive_types(V)]
pub struct SymbolTable<V> {
    /// The scopes, outermost first; each maps its names to what they are
    /// bound to.
    scopes: Vec<StringHashMap<V>>,
}

/// What `name` means in a chain of scopes: its binding in the innermost
/// scope that has one.
pub open spec fn resolve<V>(scopes: Seq<Map<Seq<char>, V>>, name: Seq<char>) -> Option<V>
    decreases scopes.len(),
{
    if scopes.len() == 0 {
        None
    } else if scopes.last().contains_key(name) {
        Some(scopes.last()[name])
    } else {
        resolve(scopes.drop_last(), name)
    }
}

/// The chain with `name` bound to `value` in its innermost scope.
pub open spec fn defined<V>(scopes: Seq<Map<Seq<char>, V>>, name: Seq<char>, value: V) -> Seq<
    Map<Seq<char>, V>,
>
    recommends
        scopes.len() > 0,
{
    scopes.update(scopes.len() - 1, scopes.last().insert(name, value))
}

impl<V> View for SymbolTable<V> {
    type V = Seq<Map<Seq<char>, V>>;

    closed spec fn view(&self) -> Seq<Map<Seq<char>, V>> {
        Seq::new(self.scopes.len() as nat, |i: int| self.scopes[i]@)
    }
}

impl<V> SymbolTable<V> {
    /// A chain of no scopes.
    pub fn new() -> (table: Self)
        ensures
            table@ == Seq::<Map<Seq<char>, V>>::empty(),
    {
        let table = SymbolTable { scopes: Vec::new() };
        assert(table@ =~= Seq::empty());
        table
    }

    /// The number of scopes.
    pub fn depth(&self) -> (n: usize)
        ensures
            n == self@.len(),
    {
        self.scopes.len()
    }

    /// Opens a scope inside the innermost one.
    pub fn enter_scope(&mut self)
        ensures
            final(self)@ == old(self)@.push(Map::empty()),
    {
        self.scopes.push(StringHashMap::new());
        assert(final(self)@ =~= old(self)@.push(Map::empty()));
    }

    /// Discards the innermost scope, if there is one.
    pub fn exit_scope(&mut self)
        ensures
            final(self)@ == if old(self)@.len() > 0 {
                old(self)@.drop_last()
            } else {
                old(self)@
            },
    {
        let _ = self.scopes.pop();
        assert(final(self)@ =~= if old(self)@.len() > 0 {
            old(self)@.drop_last()
        } else {
            old(self)@
        });
    }

    /// Binds `name` to `value` in the innermost scope.  With no scope open,
    /// one is opened first.
    pub fn define(&mut self, name: String, value: V)
        ensures
            final(self)@ == if old(self)@.len() > 0 {
                defined(old(self)@, name@, value)
            } else {
                seq![Map::empty().insert(name@, value)]
            },
    {
        let mut scope = match self.scopes.pop() {
            Some(scope) => scope,
            None => StringHashMap::new(),
        };
        scope.insert(name, value);
        self.scopes.push(scope);
        assert(final(self)@ =~= if old(self)@.len() > 0 {
            defined(old(self)@, name@, value)
        } else {
            seq![Map::empty().insert(name@, value)]
        });
    }

    /// What `name` means: its binding in the innermost scope that has one.
    pub fn lookup(&self, name: &String) -> (r: Option<&V>)
        ensures
            match r {
                Some(v) => resolve(self@, name@) == Some(*v),
                None => resolve(self@, name@) is None,
            },
    {
        let mut i = self.scopes.len();
        proof {
            assert(self@.take(i as int) =~= self@);
        }
        while i > 0
            invariant
                i <= self.scopes.len(),
                resolve(self@, name@) == resolve(self@.take(i as int), name@),
            decreases i,
        {
            proof {
                assert(self@.take(i as int).drop_last() =~= self@.take(i - 1));
            }
            i -= 1;
            match self.scopes[i].get(name.as_str()) {
                Some(v) => {
                    return Some(v);
                },
                None => {},
            }
        }
        proof {
            assert(self@.take(0) =~= Seq::empty());
        }
        None
    }
}

/// A name bound in an inner scope hides the same name in the outer scopes,
/// and is gone when the inner scope is discarded.
pub proof fn lemma_shadowing<V>(scopes: Seq<Map<Seq<char>, V>>, name: Seq<char>, inner: V)
    ensures
        resolve(defined(scopes.push(Map::empty()), name, inner), name) == Some(inner),
        defined(scopes.push(Map::empty()), name, inner).drop_last() == scopes,
        resolve(defined(scopes.push(Map::empty()), name, inner).drop_last(), name) == resolve(
            scopes,
            name,
        ),
{
    let opened = scopes.push(Map::empty());
    let bound = defined(opened, name, inner);
    assert(bound.last().contains_key(name));
    assert(bound.drop_last() =~= scopes);
}

/// A binding of one name leaves every other name as it was.
pub proof fn lemma_define_other<V>(
    scopes: Seq<Map<Seq<char>, V>>,
    name: Seq<char>,
    value: V,
    other: Seq<char>,
)
    requires
        scopes.len() > 0,
        other != name,
    ensures
        resolve(defined(scopes, name, value), other) == resolve(scopes, other),
        resolve(defined(scopes, name, value), name) == Some(value),
{
    let bound = defined(scopes, name, value);
    assert(bound.drop_last() =~= scopes.drop_last());
    assert(bound.last().contains_key(name));
}

} // verus!
