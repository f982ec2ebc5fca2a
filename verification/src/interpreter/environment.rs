//! Variable environments: a tree of scopes, each binding names to values and
//! pointing to the scope that encloses it.
//!
//! Scopes live in an arena and are named by their index, so that a closure can
//! keep the scope it was created in while other scopes come and go.
use vstd::prelude::*;

use crate::interpreter::value::Value;
use crate::bindings::Bindings;

verus! {

/// One scope: its bindings and the scope around it.
pub struct Scope {
    bindings: Bindings<Value>,
    parent: Option<usize>,
}

/// All scopes, and the one that definitions and lookups start from.
pub struct Environment {
    scopes: Vec<Scope>,
    current: usize,
}

impl Environment {
    /// How many scopes there are.
    pub closed spec fn scope_count(self) -> nat {
        self.scopes@.len()
    }

    /// The scope definitions and lookups start from.
    pub closed spec fn current_scope(self) -> int {
        self.current as int
    }

    /// The scope around scope `h`, if any.
    pub closed spec fn parent_of(self, h: int) -> Option<usize> {
        self.scopes@[h].parent
    }

    /// The names bound in scope `h` itself.
    pub closed spec fn scope_map(self, h: int) -> Map<Seq<char>, Value> {
        self.scopes@[h].bindings@
    }

    /// Every scope's enclosing scope comes before it, and the current scope exists.
    pub closed spec fn wf(self) -> bool {
        &&& self.current < self.scopes@.len()
        &&& forall|i: int| 0 <= i < self.scopes@.len() ==> match #[trigger] self.scopes@[i].parent {
            Some(p) => p < i,
            None => true,
        }
    }

    /// What well-formedness gives callers: the current scope is one of the
    /// scopes, and each scope's enclosing scope comes before it.
    pub proof fn lemma_wf(self)
        requires
            self.wf(),
        ensures
            0 <= self.current_scope() < self.scope_count(),
            forall|i: int|
                0 <= i < self.scope_count() ==> match #[trigger] self.parent_of(i) {
                    Some(p) => p < i,
                    None => true,
                },
    {
    }

    /// The scope `d` steps out from scope `h` is `h` itself or one before
    /// it, and one strictly before it when `d > 0`.
    pub proof fn lemma_ancestor_below(self, h: int, d: nat)
        requires
            self.wf(),
            0 <= h < self.scope_count(),
        ensures
            self.ancestor(h, d) matches Some(a) ==> 0 <= a <= h && (d > 0 ==> a < h),
        decreases d,
    {
        if d > 0 {
            match self.parent_of(h) {
                Some(p) => {
                    self.lemma_ancestor_below(p as int, (d - 1) as nat);
                },
                None => {},
            }
        }
    }

    /// The scope `d` steps out from scope `h`, if the chain is that long.
    pub open spec fn ancestor(self, h: int, d: nat) -> Option<int>
        decreases d,
    {
        if d == 0 {
            Some(h)
        } else {
            match self.parent_of(h) {
                Some(p) => self.ancestor(p as int, (d - 1) as nat),
                None => None,
            }
        }
    }

    /// The value `name` has when looked up from scope `h` outwards.
    pub open spec fn lookup(self, h: int, name: Seq<char>) -> Option<Value>
        decreases h,
    {
        if self.scope_map(h).contains_key(name) {
            Some(self.scope_map(h)[name])
        } else {
            match self.parent_of(h) {
                Some(p) => if 0 <= p < h {
                    self.lookup(p as int, name)
                } else {
                    None
                },
                None => None,
            }
        }
    }

    /// The scope that holds `name` as seen from scope `h`, if any.
    pub open spec fn holder(self, h: int, name: Seq<char>) -> Option<int>
        decreases h,
    {
        if self.scope_map(h).contains_key(name) {
            Some(h)
        } else {
            match self.parent_of(h) {
                Some(p) => if 0 <= p < h {
                    self.holder(p as int, name)
                } else {
                    None
                },
                None => None,
            }
        }
    }

    /// `after` is this environment with scope `h`'s binding of `name` set to `v`.
    pub open spec fn updated(self, after: Environment, h: int, name: Seq<char>, v: Value) -> bool {
        &&& after.wf()
        &&& after.scope_count() == self.scope_count()
        &&& after.current_scope() == self.current_scope()
        &&& forall|i: int| 0 <= i < self.scope_count() ==> #[trigger] after.parent_of(i) == self.parent_of(i)
        &&& forall|i: int| 0 <= i < self.scope_count() && i != h ==> #[trigger] after.scope_map(i) == self.scope_map(i)
        &&& after.scope_map(h) == self.scope_map(h).insert(name, v)
    }

    /// A global scope alone.
    pub fn new() -> (e: Environment)
        ensures
            e.wf(),
            e.scope_count() == 1,
            e.current_scope() == 0,
            e.parent_of(0) == None::<usize>,
            e.scope_map(0) == Map::<Seq<char>, Value>::empty(),
    {
        let mut scopes = Vec::new();
        scopes.push(Scope { bindings: Bindings::new(), parent: None });
        let e = Environment { scopes, current: 0 };
        e
    }

    /// A new empty scope inside `enclosing`; gives its handle. The current
    /// scope stays as it was.
    pub fn with_enclosing(&mut self, enclosing: usize) -> (h: usize)
        requires
            old(self).wf(),
            enclosing < old(self).scope_count(),
        ensures
            final(self).wf(),
            h == old(self).scope_count(),
            final(self).scope_count() == old(self).scope_count() + 1,
            final(self).current_scope() == old(self).current_scope(),
            final(self).parent_of(h as int) == Some(enclosing),
            final(self).scope_map(h as int) == Map::<Seq<char>, Value>::empty(),
            forall|i: int| 0 <= i < old(self).scope_count() ==> #[trigger] final(self).parent_of(i) == old(self).parent_of(i)
                && final(self).scope_map(i) == old(self).scope_map(i),
    {
        let h = self.scopes.len();
        self.scopes.push(Scope { bindings: Bindings::new(), parent: Some(enclosing) });
        h
    }

    /// The scope definitions and lookups start from.
    pub fn current(&self) -> (h: usize)
        ensures
            h == self.current_scope(),
    {
        self.current
    }

    /// Make `h` the scope definitions and lookups start from.
    pub fn set_current(&mut self, h: usize)
        requires
            old(self).wf(),
            h < old(self).scope_count(),
        ensures
            final(self).wf(),
            final(self).current_scope() == h,
            final(self).scope_count() == old(self).scope_count(),
            forall|i: int| 0 <= i < old(self).scope_count() ==> #[trigger] final(self).parent_of(i) == old(self).parent_of(i)
                && final(self).scope_map(i) == old(self).scope_map(i),
    {
        self.current = h;
    }

    /// Set the binding of `name` in scope `h` to `value`.
    fn set_in(&mut self, h: usize, name: String, value: Value)
        requires
            old(self).wf(),
            h < old(self).scope_count(),
        ensures
            old(self).updated(*final(self), h as int, name@, value),
    {
        let ghost before = *self;
        self.scopes[h].bindings.insert(name, value);
        proof {
            assert forall|i: int| 0 <= i < before.scope_count() && i != h implies #[trigger] self.scope_map(i)
                == before.scope_map(i) by {
                assert(self.scopes@[i] == before.scopes@[i]);
            }
            assert forall|i: int| 0 <= i < before.scope_count() implies #[trigger] self.parent_of(i)
                == before.parent_of(i) by {
                if i != h {
                    assert(self.scopes@[i] == before.scopes@[i]);
                }
            }
        }
    }

    /// Bind `name` to `value` in the current scope, replacing any binding it had there.
    pub fn define(&mut self, name: String, value: Value)
        requires
            old(self).wf(),
        ensures
            old(self).updated(*final(self), old(self).current_scope(), name@, value),
    {
        let h = self.current;
        self.set_in(h, name, value);
    }

    /// The value of `name`, looked up from the current scope outwards.
    pub fn get(&self, name: &str) -> (r: Option<Value>)
        requires
            self.wf(),
        ensures
            r == self.lookup(self.current_scope(), name@),
    {
        proof {
            self.lemma_wf();
        }
        self.get_from(self.current, name)
    }

    /// The value of `name`, looked up from scope `h` outwards.
    pub fn get_from(&self, from: usize, name: &str) -> (r: Option<Value>)
        requires
            self.wf(),
            from < self.scope_count(),
        ensures
            r == self.lookup(from as int, name@),
    {
        let mut h = from;
        loop
            invariant
                self.wf(),
                h < self.scope_count(),
                self.lookup(h as int, name@) == self.lookup(from as int, name@),
            decreases h,
        {
            match self.scopes[h].bindings.get(name) {
                Some(v) => {
                    return Some(v.duplicate());
                },
                None => {},
            }
            match self.scopes[h].parent {
                Some(p) => {
                    h = p;
                },
                None => {
                    return None;
                },
            }
        }
    }

    /// The value of `name` in the scope `distance` steps out from the current one.
    pub fn get_at(&self, distance: usize, name: &str) -> (r: Option<Value>)
        requires
            self.wf(),
            self.ancestor(self.current_scope(), distance as nat) is Some,
        ensures
            ({
                let a = self.ancestor(self.current_scope(), distance as nat)->Some_0;
                r == (if self.scope_map(a).contains_key(name@) {
                    Some(self.scope_map(a)[name@])
                } else {
                    None
                })
            }),
    {
        let h = self.ancestor_exec(distance);
        match self.scopes[h].bindings.get(name) {
            Some(v) => Some(v.duplicate()),
            None => None,
        }
    }

    /// Whether the chain of scopes out from the current one is at least
    /// `distance` scopes long.
    pub fn reaches(&self, distance: usize) -> (r: bool)
        requires
            self.wf(),
        ensures
            r == self.ancestor(self.current_scope(), distance as nat) is Some,
    {
        let mut h = self.current;
        let mut d = distance;
        while d > 0
            invariant
                self.wf(),
                h < self.scope_count(),
                d <= distance,
                self.ancestor(h as int, d as nat) == self.ancestor(self.current_scope(), distance as nat),
            decreases d,
        {
            match self.scopes[h].parent {
                Some(p) => {
                    h = p;
                },
                None => {
                    return false;
                },
            }
            d = d - 1;
        }
        true
    }

    /// How many scopes there are.
    pub fn scope_total(&self) -> (n: usize)
        ensures
            n == self.scope_count(),
    {
        self.scopes.len()
    }

    fn ancestor_exec(&self, distance: usize) -> (h: usize)
        requires
            self.wf(),
            self.ancestor(self.current_scope(), distance as nat) is Some,
        ensures
            h < self.scope_count(),
            h == self.ancestor(self.current_scope(), distance as nat)->Some_0,
    {
        let mut h = self.current;
        let mut d = distance;
        while d > 0
            invariant
                self.wf(),
                h < self.scope_count(),
                d <= distance,
                self.ancestor(h as int, d as nat) == self.ancestor(self.current_scope(), distance as nat),
                self.ancestor(h as int, d as nat) is Some,
            decreases d,
        {
            match self.scopes[h].parent {
                Some(p) => {
                    h = p;
                },
                None => {
                    h = h;
                },
            }
            d = d - 1;
        }
        h
    }

    /// Set `name` where it is bound, looking from the current scope outwards;
    /// false, with nothing changed, when it is bound nowhere.
    pub fn assign(&mut self, name: &str, value: Value) -> (found: bool)
        requires
            old(self).wf(),
        ensures
            found == old(self).holder(old(self).current_scope(), name@) is Some,
            found ==> old(self).updated(
                *final(self),
                old(self).holder(old(self).current_scope(), name@)->Some_0,
                name@,
                value,
            ),
            !found ==> *final(self) == *old(self),
    {
        proof {
            self.lemma_wf();
        }
        let h = self.current;
        self.assign_from(h, name, value)
    }

    /// Set `name` where it is bound, looking from scope `h` outwards; false,
    /// with nothing changed, when it is bound nowhere.
    pub fn assign_from(&mut self, from: usize, name: &str, value: Value) -> (found: bool)
        requires
            old(self).wf(),
            from < old(self).scope_count(),
        ensures
            found == old(self).holder(from as int, name@) is Some,
            found ==> old(self).updated(*final(self), old(self).holder(from as int, name@)->Some_0, name@, value),
            !found ==> *final(self) == *old(self),
    {
        let mut h = from;
        loop
            invariant
                self.wf(),
                *self == *old(self),
                h < self.scope_count(),
                self.holder(h as int, name@) == self.holder(from as int, name@),
            decreases h,
        {
            if self.scopes[h].bindings.contains_key(name) {
                let owned_name = crate::text::owned(name);
                self.set_in(h, owned_name, value);
                return true;
            }
            match self.scopes[h].parent {
                Some(p) => {
                    h = p;
                },
                None => {
                    return false;
                },
            }
        }
    }

    /// Bind `name` to `value` in the scope `distance` steps out from the current one.
    pub fn assign_at(&mut self, distance: usize, name: &str, value: Value)
        requires
            old(self).wf(),
            old(self).ancestor(old(self).current_scope(), distance as nat) is Some,
        ensures
            old(self).updated(
                *final(self),
                old(self).ancestor(old(self).current_scope(), distance as nat)->Some_0,
                name@,
                value,
            ),
    {
        let h = self.ancestor_exec(distance);
        let owned_name = crate::text::owned(name);
        self.set_in(h, owned_name, value);
    }
}

impl Default for Environment {
    /// A global scope alone.
    fn default() -> (e: Environment)
        ensures
            e.wf(),
            e.scope_count() == 1,
            e.current_scope() == 0,
            e.parent_of(0) == None::<usize>,
            e.scope_map(0) == Map::<Seq<char>, Value>::empty(),
    {
        Environment::new()
    }
}

/// Law: a name looked up right after it was bound in the scope the lookup
/// starts from gives the bound value.
pub proof fn define_then_get(before: Environment, after: Environment, name: Seq<char>, v: Value)
    requires
        before.wf(),
        before.updated(after, before.current_scope(), name, v),
    ensures
        after.lookup(after.current_scope(), name) == Some(v),
{
}

/// Two environments with the same enclosing scopes reach the same scope
/// `d` steps out from `h`.
proof fn lemma_ancestor_same(a: Environment, b: Environment, h: int, d: nat)
    requires
        a.wf(),
        0 <= h < a.scope_count(),
        b.scope_count() == a.scope_count(),
        forall|i: int| 0 <= i < a.scope_count() ==> #[trigger] b.parent_of(i) == a.parent_of(i),
    ensures
        b.ancestor(h, d) == a.ancestor(h, d),
    decreases d,
{
    if d > 0 {
        assert(b.parent_of(h) == a.parent_of(h));
        match a.parent_of(h) {
            Some(p) => {
                a.lemma_wf();
                lemma_ancestor_same(a, b, p as int, (d - 1) as nat);
            },
            None => {},
        }
    }
}

/// Law: defining a name binds it in the current scope alone; the scope any
/// number of steps further out is the same scope as before, with the same
/// bindings, so an outer binding of the name is shadowed, not changed.
pub proof fn define_keeps_enclosing(before: Environment, after: Environment, name: Seq<char>, v: Value, d: nat)
    requires
        before.wf(),
        before.updated(after, before.current_scope(), name, v),
        d > 0,
        before.ancestor(before.current_scope(), d) is Some,
    ensures
        after.ancestor(after.current_scope(), d) == before.ancestor(before.current_scope(), d),
        after.scope_map(before.ancestor(before.current_scope(), d)->Some_0) == before.scope_map(
            before.ancestor(before.current_scope(), d)->Some_0,
        ),
{
    before.lemma_wf();
    lemma_ancestor_same(before, after, before.current_scope(), d);
    before.lemma_ancestor_below(before.current_scope(), d);
}

/// Law: a lookup from scope `h` finds the innermost scope out from `h` that
/// binds the name and gives its value there; it finds nothing exactly when
/// no scope out from `h` binds the name.
pub proof fn lookup_is_innermost(env: Environment, h: int, name: Seq<char>)
    requires
        env.wf(),
        0 <= h < env.scope_count(),
    ensures
        match env.holder(h, name) {
            Some(k) => 0 <= k <= h && env.scope_map(k).contains_key(name) && env.lookup(h, name) == Some(
                env.scope_map(k)[name],
            ),
            None => env.lookup(h, name) is None,
        },
    decreases h,
{
    if !env.scope_map(h).contains_key(name) {
        env.lemma_wf();
        match env.parent_of(h) {
            Some(p) => {
                assert(p < h);
                lookup_is_innermost(env, p as int, name);
            },
            None => {},
        }
    }
}

/// Law: binding one name leaves the lookup of every other name, from any
/// scope, as it was.
pub proof fn update_keeps_other_names(
    before: Environment,
    after: Environment,
    h: int,
    name: Seq<char>,
    v: Value,
    start: int,
    other: Seq<char>,
)
    requires
        before.wf(),
        0 <= h < before.scope_count(),
        0 <= start < before.scope_count(),
        before.updated(after, h, name, v),
        other != name,
    ensures
        after.lookup(start, other) == before.lookup(start, other),
    decreases start,
{
    assert(after.scope_map(start).contains_key(other) == before.scope_map(start).contains_key(other));
    if !before.scope_map(start).contains_key(other) {
        assert(after.parent_of(start) == before.parent_of(start));
        match before.parent_of(start) {
            Some(p) => {
                if 0 <= p < start {
                    update_keeps_other_names(before, after, h, name, v, p as int, other);
                }
            },
            None => {},
        }
    }
}

/// Law: assigning to a name, in the scope that holds it as seen from
/// `start`, makes the lookup from `start` give the new value.
pub proof fn assign_then_get(before: Environment, after: Environment, start: int, name: Seq<char>, v: Value)
    requires
        before.wf(),
        0 <= start < before.scope_count(),
        before.holder(start, name) is Some,
        before.updated(after, before.holder(start, name)->Some_0, name, v),
    ensures
        after.lookup(start, name) == Some(v),
    decreases start,
{
    let h = before.holder(start, name)->Some_0;
    if !before.scope_map(start).contains_key(name) {
        assert(after.parent_of(start) == before.parent_of(start));
        let p = before.parent_of(start)->Some_0;
        assert(before.holder(p as int, name) == before.holder(start, name));
        lemma_holder_in_range(before, p as int, name);
        assert(h != start);
        assert(after.scope_map(start) == before.scope_map(start));
        assign_then_get(before, after, p as int, name, v);
    }
}

/// The scope holding a name is one of the scopes.
proof fn lemma_holder_in_range(env: Environment, start: int, name: Seq<char>)
    requires
        env.wf(),
        0 <= start < env.scope_count(),
    ensures
        env.holder(start, name) matches Some(h) ==> 0 <= h <= start,
    decreases start,
{
    if !env.scope_map(start).contains_key(name) {
        match env.parent_of(start) {
            Some(p) => {
                if 0 <= p < start {
                    lemma_holder_in_range(env, p as int, name);
                }
            },
            None => {},
        }
    }
}

} // verus!
