//! Name bindings: a list of names with values, where a name's latest
//! binding is the one that counts.
use vstd::prelude::*;

use crate::text::str_eq;

verus! {

/// The value bound to `name` in a list of bindings, if any: the last binding wins.
pub open spec fn binding_of<V>(bs: Seq<(String, V)>, name: Seq<char>) -> Option<V>
    decreases bs.len(),
{
    if bs.len() == 0 {
        None
    } else if bs.last().0@ == name {
        Some(bs.last().1)
    } else {
        binding_of(bs.drop_last(), name)
    }
}

/// The bindings as a map from names to values.
pub open spec fn bindings_map<V>(bs: Seq<(String, V)>) -> Map<Seq<char>, V> {
    Map::new(|n: Seq<char>| binding_of(bs, n) is Some, |n: Seq<char>| binding_of(bs, n)->Some_0)
}

/// A map from names to values.
pub struct Bindings<V> {
    items: Vec<(String, V)>,
}

impl<V> View for Bindings<V> {
    type V = Map<Seq<char>, V>;

    closed spec fn view(&self) -> Map<Seq<char>, V> {
        bindings_map(self.items@)
    }
}

impl<V> Bindings<V> {
    /// No bindings.
    pub fn new() -> (b: Bindings<V>)
        ensures
            b@ == Map::<Seq<char>, V>::empty(),
    {
        let b = Bindings { items: Vec::new() };
        assert(bindings_map(b.items@) =~= Map::<Seq<char>, V>::empty());
        b
    }

    /// The index of the binding of `name`, if any.
    fn position(&self, name: &str) -> (r: Option<usize>)
        ensures
            match r {
                Some(i) => i < self.items@.len() && self.items@[i as int].0@ == name@ && binding_of(self.items@, name@)
                    == Some(self.items@[i as int].1) && forall|j: int|
                    i < j < self.items@.len() ==> #[trigger] self.items@[j].0@ != name@,
                None => binding_of(self.items@, name@) is None,
            },
    {
        let bs = &self.items;
        let mut i = bs.len();
        assert(bs@.subrange(0, bs@.len() as int) =~= bs@);
        while i > 0
            invariant
                i <= bs@.len(),
                bs == &self.items,
                binding_of(bs@, name@) == binding_of(bs@.subrange(0, i as int), name@),
                forall|j: int| i <= j < bs@.len() ==> #[trigger] bs@[j].0@ != name@,
            decreases i,
        {
            assert(bs@.subrange(0, i as int).drop_last() =~= bs@.subrange(0, i - 1));
            if str_eq(bs[i - 1].0.as_str(), name) {
                return Some(i - 1);
            }
            i = i - 1;
        }
        assert(bs@.subrange(0, 0) =~= Seq::<(String, V)>::empty());
        None
    }

    /// The value bound to `name`, if any.
    pub fn get(&self, name: &str) -> (r: Option<&V>)
        ensures
            match r {
                Some(v) => self@.contains_key(name@) && *v == self@[name@],
                None => !self@.contains_key(name@),
            },
    {
        match self.position(name) {
            Some(i) => Some(&self.items[i].1),
            None => None,
        }
    }

    /// Whether `name` is bound.
    pub fn contains_key(&self, name: &str) -> (b: bool)
        ensures
            b == self@.contains_key(name@),
    {
        self.position(name).is_some()
    }

    /// Bind `name` to `v`, replacing its binding if it has one.
    pub fn insert(&mut self, name: String, v: V)
        ensures
            final(self)@ == old(self)@.insert(name@, v),
    {
        let pos = self.position(name.as_str());
        let ghost bs0 = self.items@;
        let ghost nm = name;
        let ghost gv = v;
        match pos {
            Some(i) => {
                self.items.set(i, (name, v));
                proof {
                    lemma_binding_set(bs0, i as int, nm, gv);
                }
            },
            None => {
                self.items.push((name, v));
                proof {
                    lemma_binding_push(bs0, nm, gv);
                }
            },
        }
    }
}

proof fn lemma_binding_set<V>(bs: Seq<(String, V)>, i: int, s: String, v: V)
    requires
        0 <= i < bs.len(),
        bs[i].0@ == s@,
        binding_of(bs, s@) == Some(bs[i].1),
        forall|j: int| i < j < bs.len() ==> #[trigger] bs[j].0@ != s@,
    ensures
        bindings_map(bs.update(i, (s, v))) == bindings_map(bs).insert(s@, v),
{
    lemma_binding_set_each(bs, i, s, v);
    assert(bindings_map(bs.update(i, (s, v))) =~= bindings_map(bs).insert(s@, v));
}

proof fn lemma_binding_set_each<V>(bs: Seq<(String, V)>, i: int, s: String, v: V)
    requires
        0 <= i < bs.len(),
        bs[i].0@ == s@,
        binding_of(bs, s@) == Some(bs[i].1),
        forall|j: int| i < j < bs.len() ==> #[trigger] bs[j].0@ != s@,
    ensures
        forall|k: Seq<char>| #[trigger] binding_of(bs.update(i, (s, v)), k) == (if k == s@ {
            Some(v)
        } else {
            binding_of(bs, k)
        }),
{
    assert forall|k: Seq<char>| #[trigger] binding_of(bs.update(i, (s, v)), k) == (if k == s@ {
        Some(v)
    } else {
        binding_of(bs, k)
    }) by {
        lemma_binding_set_one(bs, i, s, v, k);
    }
}

proof fn lemma_binding_set_one<V>(bs: Seq<(String, V)>, i: int, s: String, v: V, k: Seq<char>)
    requires
        0 <= i < bs.len(),
        bs[i].0@ == s@,
        forall|j: int| i < j < bs.len() ==> #[trigger] bs[j].0@ != s@,
    ensures
        binding_of(bs.update(i, (s, v)), k) == (if k == s@ {
            Some(v)
        } else {
            binding_of(bs, k)
        }),
    decreases bs.len(),
{
    let nb = bs.update(i, (s, v));
    let last = bs.len() - 1;
    if i == last {
        assert(nb.drop_last() =~= bs.drop_last());
        assert(nb.last() == (s, v));
    } else {
        assert(nb.drop_last() =~= bs.drop_last().update(i, (s, v)));
        assert(nb.last() == bs.last());
        assert(bs[last].0@ != s@);
        lemma_binding_set_one(bs.drop_last(), i, s, v, k);
    }
}

/// Binding one more name at the end binds it on top of the rest.
pub proof fn lemma_binding_push<V>(bs: Seq<(String, V)>, s: String, v: V)
    ensures
        bindings_map(bs.push((s, v))) == bindings_map(bs).insert(s@, v),
{
    assert(bs.push((s, v)).drop_last() =~= bs);
    assert(bindings_map(bs.push((s, v))) =~= bindings_map(bs).insert(s@, v));
}

} // verus!
