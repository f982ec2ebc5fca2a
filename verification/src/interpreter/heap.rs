//! The tree-walking evaluator's heap: functions, classes and instances,
//! which values refer to by index, and the decisions made on them: method
//! lookup through superclasses, property access, binding `this`, and what a
//! call of a value does.
use vstd::prelude::*;

use crate::bindings::Bindings;
use crate::interpreter::environment::Environment;
use crate::interpreter::value::Value;
use crate::text::{append_str, owned, push_decimal};
use crate::vm::machine::arity_mismatch;

verus! {

/// A function value: the declaration it runs (an index the caller keeps),
/// its name and arity, the scope it closes over, and whether it is a class
/// initializer.
pub struct FunctionV {
    pub decl: usize,
    pub name: Seq<char>,
    pub arity: usize,
    pub closure: usize,
    pub is_initializer: bool,
}

/// A class: its name, superclass and methods.
pub struct ClassV {
    pub name: Seq<char>,
    pub superclass: Option<usize>,
    pub methods: Map<Seq<char>, usize>,
}

/// An instance: its class and fields.
pub struct InstanceV {
    pub class: usize,
    pub fields: Map<Seq<char>, Value>,
}

/// The heap as a value.
pub struct HeapView {
    pub functions: Seq<FunctionV>,
    pub classes: Seq<ClassV>,
    pub instances: Seq<InstanceV>,
}

/// Every handle points into its table, and a superclass comes before its
/// subclasses.
pub open spec fn heap_wf(h: HeapView) -> bool {
    &&& forall|c: int| 0 <= c < h.classes.len() ==> ((#[trigger] h.classes[c]).superclass matches Some(s) ==> s < c)
    &&& forall|c: int, n: Seq<char>|
        0 <= c < h.classes.len() && #[trigger] h.classes[c].methods.contains_key(n) ==> h.classes[c].methods[n]
            < h.functions.len()
    &&& forall|i: int| 0 <= i < h.instances.len() ==> (#[trigger] h.instances[i]).class < h.classes.len()
}

/// The value's handle, if it has one, points into its table.
pub open spec fn holds(h: HeapView, v: Value) -> bool {
    match v {
        Value::Function(f) => f < h.functions.len(),
        Value::Class(c) => c < h.classes.len(),
        Value::Instance(i) => i < h.instances.len(),
        _ => true,
    }
}

/// The method `name` of class `c`, looked up in `c` and then its superclasses.
pub open spec fn method_of(h: HeapView, c: int, name: Seq<char>) -> Option<usize>
    decreases c,
{
    if c < 0 || c >= h.classes.len() {
        None
    } else if h.classes[c].methods.contains_key(name) {
        Some(h.classes[c].methods[name])
    } else {
        match h.classes[c].superclass {
            Some(s) => if s < c {
                method_of(h, s as int, name)
            } else {
                None
            },
            None => None,
        }
    }
}

/// A method found is a function of the heap.
pub proof fn lemma_method_of_bound(h: HeapView, c: int, name: Seq<char>)
    requires
        heap_wf(h),
    ensures
        method_of(h, c, name) matches Some(f) ==> f < h.functions.len(),
    decreases c,
{
    if 0 <= c < h.classes.len() && !h.classes[c].methods.contains_key(name) {
        if let Some(s) = h.classes[c].superclass {
            if s < c {
                lemma_method_of_bound(h, s as int, name);
            }
        }
    }
}

/// What reading a property of an instance finds.
#[derive(Debug)]
pub enum Property {
    /// A field's value.
    Field(Value),
    /// A method, still to be bound to the instance.
    Method(usize),
    /// Nothing by that name.
    Missing,
}

/// What a call of a value does.
#[derive(Debug)]
pub enum CallPlan {
    /// Call the built-in function.
    Native(crate::interpreter::callable::NativeFunction),
    /// Run the function.
    Function(usize),
    /// The new instance, and the initializer to bind to it and run, if any.
    Instantiate { instance: usize, init: Option<usize> },
    /// A runtime error with this message.
    Error(String),
}

struct FunctionObj {
    decl: usize,
    name: String,
    arity: usize,
    closure: usize,
    is_initializer: bool,
}

struct ClassObj {
    name: String,
    superclass: Option<usize>,
    methods: Bindings<usize>,
}

struct InstanceObj {
    class: usize,
    fields: Bindings<Value>,
}

spec fn function_view(f: FunctionObj) -> FunctionV {
    FunctionV { decl: f.decl, name: f.name@, arity: f.arity, closure: f.closure, is_initializer: f.is_initializer }
}

spec fn class_view(c: ClassObj) -> ClassV {
    ClassV { name: c.name@, superclass: c.superclass, methods: c.methods@ }
}

spec fn instance_view(i: InstanceObj) -> InstanceV {
    InstanceV { class: i.class, fields: i.fields@ }
}

/// The evaluator's heap.
pub struct Heap {
    functions: Vec<FunctionObj>,
    classes: Vec<ClassObj>,
    instances: Vec<InstanceObj>,
}

impl Heap {
    /// The heap as a value.
    pub closed spec fn view(&self) -> HeapView {
        HeapView {
            functions: self.functions@.map_values(|f: FunctionObj| function_view(f)),
            classes: self.classes@.map_values(|c: ClassObj| class_view(c)),
            instances: self.instances@.map_values(|i: InstanceObj| instance_view(i)),
        }
    }

    /// An empty heap.
    pub fn new() -> (h: Heap)
        ensures
            h.view().functions.len() == 0,
            h.view().classes.len() == 0,
            h.view().instances.len() == 0,
            heap_wf(h.view()),
    {
        Heap { functions: Vec::new(), classes: Vec::new(), instances: Vec::new() }
    }

    /// Whether the value's handle points into its table.
    pub fn holds_value(&self, v: &Value) -> (r: bool)
        ensures
            r == holds(self.view(), *v),
    {
        match v {
            Value::Function(f) => *f < self.functions.len(),
            Value::Class(c) => *c < self.classes.len(),
            Value::Instance(i) => *i < self.instances.len(),
            _ => true,
        }
    }

    /// Add a function; its handle.
    pub fn add_function(&mut self, decl: usize, name: String, arity: usize, closure: usize, is_initializer: bool) -> (f: usize)
        ensures
            f == old(self).view().functions.len(),
            final(self).view() == (HeapView {
                functions: old(self).view().functions.push(
                    FunctionV { decl, name: name@, arity, closure, is_initializer },
                ),
                ..old(self).view()
            }),
    {
        let ghost v0 = self.view();
        let f = self.functions.len();
        self.functions.push(FunctionObj { decl, name, arity, closure, is_initializer });
        assert(self.view().functions =~= v0.functions.push(function_view(self.functions@[f as int])));
        assert(self.view().classes =~= v0.classes);
        assert(self.view().instances =~= v0.instances);
        f
    }

    /// The declaration, arity, closure scope and initializer flag of function `f`.
    pub fn function_info(&self, f: usize) -> (r: (usize, usize, usize, bool))
        requires
            f < self.view().functions.len(),
        ensures
            r == (
                self.view().functions[f as int].decl,
                self.view().functions[f as int].arity,
                self.view().functions[f as int].closure,
                self.view().functions[f as int].is_initializer,
            ),
    {
        let x = &self.functions[f];
        (x.decl, x.arity, x.closure, x.is_initializer)
    }

    /// Add a class with the methods given as (name, function) pairs, a later
    /// pair replacing an earlier one of the same name; its handle.
    pub fn add_class(&mut self, name: String, superclass: Option<usize>, methods: Vec<(String, usize)>) -> (c: usize)
        requires
            heap_wf(old(self).view()),
            superclass matches Some(s) ==> s < old(self).view().classes.len(),
            forall|k: int| 0 <= k < methods@.len() ==> (#[trigger] methods@[k]).1 < old(self).view().functions.len(),
        ensures
            c == old(self).view().classes.len(),
            heap_wf(final(self).view()),
            final(self).view().functions == old(self).view().functions,
            final(self).view().instances == old(self).view().instances,
            final(self).view().classes.len() == c + 1,
            forall|k: int| 0 <= k < c ==> #[trigger] final(self).view().classes[k] == old(self).view().classes[k],
            final(self).view().classes[c as int].name == name@,
            final(self).view().classes[c as int].superclass == superclass,
            final(self).view().classes[c as int].methods == crate::bindings::bindings_map(methods@),
    {
        let ghost v0 = self.view();
        let ghost ms = methods@;
        let mut table: Bindings<usize> = Bindings::new();
        let mut methods = methods;
        let mut k: usize = 0;
        let n = methods.len();
        let mut items: Vec<(String, usize)> = Vec::new();
        while k < n
            invariant
                k <= n == ms.len(),
                methods@ == ms,
                items@ == ms.take(k as int),
                table@ == crate::bindings::bindings_map(items@),
                forall|j: int| 0 <= j < ms.len() ==> (#[trigger] ms[j]).1 < v0.functions.len(),
            decreases n - k,
        {
            let name_k = methods[k].0.clone();
            let f_k = methods[k].1;
            proof {
                crate::bindings::lemma_binding_push(items@, name_k, f_k);
            }
            table.insert(name_k.clone(), f_k);
            items.push((name_k, f_k));
            assert(items@ =~= ms.take(k + 1));
            k = k + 1;
        }
        assert(ms.take(n as int) =~= ms);
        let c = self.classes.len();
        self.classes.push(ClassObj { name, superclass, methods: table });
        proof {
            assert(self.view().functions =~= v0.functions);
            assert(self.view().instances =~= v0.instances);
            assert forall|x: Seq<char>| #[trigger] self.view().classes[c as int].methods.contains_key(x) implies self.view().classes[c as int].methods[x]
                < v0.functions.len() by {
                lemma_binding_below(ms, x, v0.functions.len());
            }
            assert forall|k: int| 0 <= k < c implies #[trigger] self.view().classes[k] == v0.classes[k] by {
                assert(self.classes@[k] == old(self).classes@[k]);
            }
            let w = self.view();
            assert forall|k: int| 0 <= k < w.classes.len() implies ((#[trigger] w.classes[k]).superclass matches Some(s)
                ==> s < k) by {
                if k < c {
                    assert(w.classes[k] == v0.classes[k]);
                }
            }
            assert forall|k: int, x: Seq<char>| 0 <= k < w.classes.len() && #[trigger] w.classes[k].methods.contains_key(x)
                implies w.classes[k].methods[x] < w.functions.len() by {
                if k < c {
                    assert(w.classes[k] == v0.classes[k]);
                }
            }
        }
        c
    }

    /// The method `name` of class `c` or its nearest superclass that has one.
    pub fn find_method(&self, c: usize, name: &str) -> (r: Option<usize>)
        requires
            heap_wf(self.view()),
        ensures
            r == method_of(self.view(), c as int, name@),
    {
        let mut k = c;
        loop
            invariant
                heap_wf(self.view()),
                method_of(self.view(), k as int, name@) == method_of(self.view(), c as int, name@),
            decreases k,
        {
            if k >= self.classes.len() {
                return None;
            }
            match self.classes[k].methods.get(name) {
                Some(f) => {
                    return Some(*f);
                },
                None => {},
            }
            match self.classes[k].superclass {
                Some(s) => {
                    if s >= k {
                        return None;
                    }
                    k = s;
                },
                None => {
                    return None;
                },
            }
        }
    }

    /// A new instance of class `c` with no fields; its handle.
    pub fn instantiate(&mut self, c: usize) -> (i: usize)
        requires
            heap_wf(old(self).view()),
            c < old(self).view().classes.len(),
        ensures
            i == old(self).view().instances.len(),
            heap_wf(final(self).view()),
            final(self).view() == (HeapView {
                instances: old(self).view().instances.push(InstanceV { class: c, fields: Map::empty() }),
                ..old(self).view()
            }),
    {
        let ghost v0 = self.view();
        let i = self.instances.len();
        self.instances.push(InstanceObj { class: c, fields: Bindings::new() });
        assert(self.view().instances =~= v0.instances.push(InstanceV { class: c, fields: Map::empty() }));
        assert(self.view().functions =~= v0.functions);
        assert(self.view().classes =~= v0.classes);
        i
    }

    /// The property `name` of instance `i`: a field first, else a method of
    /// its class.
    pub fn get_property(&self, i: usize, name: &str) -> (p: Property)
        requires
            heap_wf(self.view()),
            i < self.view().instances.len(),
        ensures
            match p {
                Property::Field(v) => self.view().instances[i as int].fields.contains_key(name@)
                    && v == self.view().instances[i as int].fields[name@],
                Property::Method(f) => !self.view().instances[i as int].fields.contains_key(name@) && method_of(
                    self.view(),
                    self.view().instances[i as int].class as int,
                    name@,
                ) == Some(f),
                Property::Missing => !self.view().instances[i as int].fields.contains_key(name@) && method_of(
                    self.view(),
                    self.view().instances[i as int].class as int,
                    name@,
                ) is None,
            },
    {
        match self.instances[i].fields.get(name) {
            Some(v) => Property::Field(v.duplicate()),
            None => match self.find_method(self.instances[i].class, name) {
                Some(f) => Property::Method(f),
                None => Property::Missing,
            },
        }
    }

    /// Set the field `name` of instance `i`.
    pub fn set_field(&mut self, i: usize, name: String, value: Value)
        requires
            heap_wf(old(self).view()),
            i < old(self).view().instances.len(),
        ensures
            heap_wf(final(self).view()),
            final(self).view() == (HeapView {
                instances: old(self).view().instances.update(
                    i as int,
                    InstanceV {
                        fields: old(self).view().instances[i as int].fields.insert(name@, value),
                        ..old(self).view().instances[i as int]
                    },
                ),
                ..old(self).view()
            }),
    {
        let ghost v0 = self.view();
        let ghost nm = name@;
        let mut inst = self.instances.remove(i);
        inst.fields.insert(name, value);
        self.instances.insert(i, inst);
        assert(self.view().instances =~= v0.instances.update(
            i as int,
            InstanceV { fields: v0.instances[i as int].fields.insert(nm, value), ..v0.instances[i as int] },
        ));
        assert(self.view().functions =~= v0.functions);
        assert(self.view().classes =~= v0.classes);
    }

    /// Bind method `f` to instance `i`: a copy of the function whose closure
    /// is a new scope, inside the method's own, where `this` is the instance.
    pub fn bind(&mut self, env: &mut Environment, f: usize, i: usize) -> (g: usize)
        requires
            heap_wf(old(self).view()),
            f < old(self).view().functions.len(),
            old(env).wf(),
            old(self).view().functions[f as int].closure < old(env).scope_count(),
        ensures
            heap_wf(final(self).view()),
            g == old(self).view().functions.len(),
            final(self).view() == (HeapView {
                functions: old(self).view().functions.push(
                    FunctionV { closure: old(env).scope_count() as usize, ..old(self).view().functions[f as int] },
                ),
                ..old(self).view()
            }),
            final(env).wf(),
            final(env).scope_count() == old(env).scope_count() + 1,
            final(env).current_scope() == old(env).current_scope(),
            final(env).parent_of(old(env).scope_count() as int) == Some(old(self).view().functions[f as int].closure),
            final(env).scope_map(old(env).scope_count() as int) == Map::<Seq<char>, Value>::empty().insert(
                "this"@,
                Value::Instance(i),
            ),
            forall|k: int| 0 <= k < old(env).scope_count() ==> #[trigger] final(env).parent_of(k) == old(env).parent_of(k)
                && final(env).scope_map(k) == old(env).scope_map(k),
    {
        let ghost v0 = self.view();
        let closure = self.functions[f].closure;
        proof {
            env.lemma_wf();
        }
        let previous = env.current();
        let scope = env.with_enclosing(closure);
        env.set_current(scope);
        env.define(owned("this"), Value::Instance(i));
        env.set_current(previous);
        let decl = self.functions[f].decl;
        let arity = self.functions[f].arity;
        let is_initializer = self.functions[f].is_initializer;
        let name = self.functions[f].name.clone();
        let g = self.functions.len();
        self.functions.push(FunctionObj { decl, name, arity, closure: scope, is_initializer });
        assert(self.view().functions =~= v0.functions.push(FunctionV { closure: scope, ..v0.functions[f as int] }));
        assert(self.view().classes =~= v0.classes);
        assert(self.view().instances =~= v0.instances);
        g
    }

    /// What calling `callee` with `argc` arguments does. A class gets a new
    /// instance first; then its initializer, if it has one, must take `argc`
    /// arguments, and without one `argc` must be 0.
    pub fn call_plan(&mut self, callee: &Value, argc: usize) -> (p: CallPlan)
        requires
            heap_wf(old(self).view()),
            holds(old(self).view(), *callee),
        ensures
            heap_wf(final(self).view()),
            match *callee {
                Value::Class(c) => {
                    let inst = old(self).view().instances.len() as usize;
                    &&& final(self).view() == (HeapView {
                        instances: old(self).view().instances.push(InstanceV { class: c, fields: Map::empty() }),
                        ..old(self).view()
                    })
                    &&& match method_of(old(self).view(), c as int, "init"@) {
                        Some(init) => if argc != old(self).view().functions[init as int].arity {
                            p matches CallPlan::Error(m) && m@ == arity_mismatch(
                                old(self).view().functions[init as int].arity as nat,
                                argc as nat,
                            )
                        } else {
                            p == CallPlan::Instantiate { instance: inst, init: Some(init) }
                        },
                        None => if argc != 0 {
                            p matches CallPlan::Error(m) && m@ == arity_mismatch(0, argc as nat)
                        } else {
                            p == CallPlan::Instantiate { instance: inst, init: None }
                        },
                    }
                },
                Value::Native(n) => final(self).view() == old(self).view() && (if argc != n.spec_arity() {
                    p matches CallPlan::Error(m) && m@ == arity_mismatch(n.spec_arity(), argc as nat)
                } else {
                    p == CallPlan::Native(n)
                }),
                Value::Function(f) => final(self).view() == old(self).view() && (if argc
                    != old(self).view().functions[f as int].arity {
                    p matches CallPlan::Error(m) && m@ == arity_mismatch(
                        old(self).view().functions[f as int].arity as nat,
                        argc as nat,
                    )
                } else {
                    p == CallPlan::Function(f)
                }),
                _ => final(self).view() == old(self).view() && (p matches CallPlan::Error(m) && m@
                    == "can only call functions and classes"@),
            },
    {
        match callee {
            Value::Native(n) => {
                let ar = n.arity();
                if argc != ar {
                    CallPlan::Error(arity_text(ar, argc))
                } else {
                    CallPlan::Native(*n)
                }
            },
            Value::Function(f) => {
                let ar = self.functions[*f].arity;
                if argc != ar {
                    CallPlan::Error(arity_text(ar, argc))
                } else {
                    CallPlan::Function(*f)
                }
            },
            Value::Class(c) => {
                let ghost v0 = self.view();
                let init = self.find_method(*c, "init");
                proof {
                    lemma_method_of_bound(v0, *c as int, "init"@);
                }
                let instance = self.instantiate(*c);
                assert(self.view().functions == v0.functions);
                match init {
                    Some(g) => {
                        let ar = self.functions[g].arity;
                        if argc != ar {
                            CallPlan::Error(arity_text(ar, argc))
                        } else {
                            CallPlan::Instantiate { instance, init: Some(g) }
                        }
                    },
                    None => if argc != 0 {
                        CallPlan::Error(arity_text(0, argc))
                    } else {
                        CallPlan::Instantiate { instance, init: None }
                    },
                }
            },
            _ => CallPlan::Error(owned("can only call functions and classes")),
        }
    }

    /// How `print` shows a value that is not a number (`None` for a number).
    pub fn display(&self, v: &Value) -> (t: Option<String>)
        requires
            heap_wf(self.view()),
            holds(self.view(), *v),
        ensures
            match *v {
                Value::Number(_) => t is None,
                Value::Str(s) => t matches Some(x) && x@ == s@,
                Value::Bool(b) => t matches Some(x) && x@ == (if b { "true"@ } else { "false"@ }),
                Value::Nil => t matches Some(x) && x@ == "nil"@,
                Value::Function(f) => t matches Some(x) && x@ == "<fn "@ + self.view().functions[f as int].name + ">"@,
                Value::Native(n) => t matches Some(x) && x@ == "<fn "@ + n.spec_name() + ">"@,
                Value::Class(c) => t matches Some(x) && x@ == self.view().classes[c as int].name,
                Value::Instance(i) => t matches Some(x) && x@ == self.view().classes[self.view().instances[
                    i as int].class as int].name + " instance"@,
            },
    {
        match v {
            Value::Number(_) => None,
            Value::Str(s) => Some(s.clone()),
            Value::Bool(b) => Some(if *b {
                owned("true")
            } else {
                owned("false")
            }),
            Value::Nil => Some(owned("nil")),
            Value::Function(f) => {
                let mut t = owned("<fn ");
                append_str(&mut t, self.functions[*f].name.as_str());
                append_str(&mut t, ">");
                Some(t)
            },
            Value::Native(n) => {
                let mut t = owned("<fn ");
                append_str(&mut t, n.name());
                append_str(&mut t, ">");
                Some(t)
            },
            Value::Class(c) => Some(self.classes[*c].name.clone()),
            Value::Instance(i) => {
                let mut t = self.classes[self.instances[*i].class].name.clone();
                append_str(&mut t, " instance");
                Some(t)
            },
        }
    }
}

/// Every value bound in a list below `bound` makes the value a name is bound to below it.
proof fn lemma_binding_below(bs: Seq<(String, usize)>, name: Seq<char>, bound: nat)
    requires
        forall|k: int| 0 <= k < bs.len() ==> (#[trigger] bs[k]).1 < bound,
    ensures
        crate::bindings::binding_of(bs, name) matches Some(v) ==> v < bound,
    decreases bs.len(),
{
    if bs.len() > 0 {
        assert forall|k: int| 0 <= k < bs.drop_last().len() implies (#[trigger] bs.drop_last()[k]).1 < bound by {
            assert(bs.drop_last()[k] == bs[k]);
        }
        lemma_binding_below(bs.drop_last(), name, bound);
    }
}

fn arity_text(expected: usize, got: usize) -> (m: String)
    ensures
        m@ == arity_mismatch(expected as nat, got as nat),
{
    let mut m = owned("expected ");
    push_decimal(&mut m, expected);
    append_str(&mut m, " arguments but got ");
    push_decimal(&mut m, got);
    m
}

} // verus!
