use vstd::prelude::*;

use crate::ast::{BasicType, Enum, Struct, Typedef, Union};

verus! {

/// What a type name refers to.
#[derive(Debug)]
pub enum AstType {
    Basic(BasicType),
    Struct(Struct),
    Union(Union),
    Enum(Enum),
    Typedef(Typedef),
}

/// The value bound to `key` by the last entry that names it.
pub open spec fn last_binding<V>(entries: Seq<(String, V)>, key: Seq<char>) -> Option<V>
    decreases entries.len(),
{
    if entries.len() == 0 {
        None
    } else if entries.last().0@ == key {
        Some(entries.last().1)
    } else {
        last_binding(entries.drop_last(), key)
    }
}

/// The map that a list of bindings denotes, a later binding overriding an earlier one.
pub open spec fn bindings<V>(entries: Seq<(String, V)>) -> Map<Seq<char>, V> {
    Map::new(
        |k: Seq<char>| last_binding(entries, k) is Some,
        |k: Seq<char>| last_binding(entries, k).unwrap(),
    )
}

proof fn lemma_bindings_push<V>(entries: Seq<(String, V)>, key: String, value: V)
    ensures
        bindings(entries.push((key, value))) == bindings(entries).insert(key@, value),
{
    let e2 = entries.push((key, value));
    assert(e2.drop_last() =~= entries);
    assert(bindings(e2) =~= bindings(entries).insert(key@, value));
}

fn find_last<V>(entries: &Vec<(String, V)>, key: &str) -> (r: Option<usize>)
    ensures
        match r {
            Some(i) => i < entries@.len() && last_binding(entries@, key@) == Some(entries@[i as int].1),
            None => last_binding(entries@, key@) is None,
        },
{
    let target = String::from_str(key);
    let mut i: usize = entries.len();
    assert(entries@.take(i as int) =~= entries@);
    while i > 0
        invariant
            i <= entries@.len(),
            target@ == key@,
            last_binding(entries@, key@) == last_binding(entries@.take(i as int), key@),
        decreases i,
    {
        let ghost prefix = entries@.take(i as int);
        assert(prefix.drop_last() =~= entries@.take(i - 1));
        if entries[i - 1].0 == target {
            return Some(i - 1);
        }
        i = i - 1;
    }
    None
}

/// The names of the types that take a `Bytes` type parameter.
pub struct GenericIndex {
    names: Vec<String>,
}

impl View for GenericIndex {
    type V = Set<Seq<char>>;

    closed spec fn view(&self) -> Set<Seq<char>> {
        Set::new(|n: Seq<char>| exists|i: int| 0 <= i < self.names@.len() && self.names@[i]@ == n)
    }
}

impl GenericIndex {
    pub fn new() -> (r: Self)
        ensures
            r@ == Set::<Seq<char>>::empty(),
    {
        let r = GenericIndex { names: Vec::new() };
        assert(r@ =~= Set::<Seq<char>>::empty());
        r
    }

    pub fn insert(&mut self, name: &str)
        ensures
            final(self)@ == old(self)@.insert(name@),
    {
        self.names.push(String::from_str(name));
        assert(self.names@.last()@ == name@);
        assert forall|n: Seq<char>| final(self)@.contains(n) <==> old(self)@.insert(name@).contains(n) by {
            if old(self)@.contains(n) {
                let i = choose|i: int| 0 <= i < old(self).names@.len() && old(self).names@[i]@ == n;
                assert(self.names@[i] == old(self).names@[i]);
            }
            if final(self)@.contains(n) && n != name@ {
                let i = choose|i: int| 0 <= i < self.names@.len() && self.names@[i]@ == n;
                assert(old(self).names@[i] == self.names@[i]);
            }
        }
        assert(final(self)@ =~= old(self)@.insert(name@));
    }

    pub fn contains(&self, name: &str) -> (b: bool)
        ensures
            b == self@.contains(name@),
    {
        let target = String::from_str(name);
        let mut i: usize = 0;
        while i < self.names.len()
            invariant
                target@ == name@,
                i <= self.names@.len(),
                forall|j: int| 0 <= j < i ==> self.names@[j]@ != name@,
            decreases self.names.len() - i,
        {
            if self.names[i] == target {
                return true;
            }
            i = i + 1;
        }
        false
    }
}

/// The values of the declared constants, as written, by name.
pub struct ConstantIndex {
    entries: Vec<(String, String)>,
}

impl View for ConstantIndex {
    type V = Map<Seq<char>, Seq<char>>;

    closed spec fn view(&self) -> Map<Seq<char>, Seq<char>> {
        bindings(self.entries@).map_values(|v: String| v@)
    }
}

impl ConstantIndex {
    pub fn new() -> (r: Self)
        ensures
            r@ == Map::<Seq<char>, Seq<char>>::empty(),
    {
        let r = ConstantIndex { entries: Vec::new() };
        assert(r@ =~= Map::<Seq<char>, Seq<char>>::empty());
        r
    }

    /// Binds `name` to `value`, replacing an earlier binding of `name`.
    pub fn insert(&mut self, name: &str, value: &str)
        ensures
            final(self)@ == old(self)@.insert(name@, value@),
    {
        let key = String::from_str(name);
        let v = String::from_str(value);
        proof {
            lemma_bindings_push(self.entries@, key, v);
        }
        self.entries.push((key, v));
        assert(final(self)@ =~= old(self)@.insert(name@, value@));
    }

    pub fn get(&self, name: &str) -> (r: Option<&String>)
        ensures
            match r {
                Some(v) => self@.contains_key(name@) && self@[name@] == v@,
                None => !self@.contains_key(name@),
            },
    {
        match find_last(&self.entries, name) {
            Some(i) => Some(&self.entries[i].1),
            None => None,
        }
    }
}

/// The definitions of the named types, by name.
pub struct TypeIndex {
    entries: Vec<(String, AstType)>,
}

impl View for TypeIndex {
    type V = Map<Seq<char>, AstType>;

    closed spec fn view(&self) -> Map<Seq<char>, AstType> {
        bindings(self.entries@)
    }
}

impl TypeIndex {
    pub fn new() -> (r: Self)
        ensures
            r@ == Map::<Seq<char>, AstType>::empty(),
    {
        let r = TypeIndex { entries: Vec::new() };
        assert(r@ =~= Map::<Seq<char>, AstType>::empty());
        r
    }

    /// Binds `name` to `def`, replacing an earlier binding of `name`.
    pub fn insert(&mut self, name: &str, def: AstType)
        ensures
            final(self)@ == old(self)@.insert(name@, def),
    {
        let key = String::from_str(name);
        proof {
            lemma_bindings_push(self.entries@, key, def);
        }
        self.entries.push((key, def));
    }

    pub fn get(&self, name: &str) -> (r: Option<&AstType>)
        ensures
            match r {
                Some(t) => self@.contains_key(name@) && self@[name@] == *t,
                None => !self@.contains_key(name@),
            },
    {
        match find_last(&self.entries, name) {
            Some(i) => Some(&self.entries[i].1),
            None => None,
        }
    }
}

} // verus!
