//! Run-time state of the tree-walking interpreter: values, environments,
//! built-in functions, and the static resolution of variables.
pub mod callable;
pub mod environment;
pub mod eval;
pub mod heap;
pub mod resolver;
pub mod value;

use std::collections::HashMap;

use vstd::prelude::*;

use crate::error::StackFrame;
use crate::interpreter::callable::NativeFunction;
use crate::interpreter::environment::Environment;
use crate::interpreter::value::Value;
use crate::text::owned;

verus! {

broadcast use vstd::std_specs::hash::group_hash_axioms;

/// The interpreter's state between statements: the variables, the scope
/// depth the resolver found for each variable reference, the lines printed,
/// the active calls (for backtraces) and the source being run.
pub struct Interpreter {
    pub environment: Environment,
    pub locals: HashMap<usize, usize>,
    pub output: Vec<String>,
    pub call_stack: Vec<StackFrame>,
    pub source: String,
}

/// Why a variable could not be read or written.
#[derive(Debug, Clone, Copy, PartialEq, Eq, Structural)]
pub enum VariableError {
    /// A global that is bound nowhere.
    Undefined,
    /// The resolver's scope is missing or does not bind the name.
    Unresolved,
}

/// The value a variable read gives: from the scope `locals[id]` steps out
/// from the current one when the resolver placed it, else from the globals.
pub open spec fn variable_value(env: Environment, locals: Map<usize, usize>, name: Seq<char>, id: usize) -> Result<
    Value,
    VariableError,
> {
    if locals.contains_key(id) {
        match env.ancestor(env.current_scope(), locals[id] as nat) {
            Some(a) => if env.scope_map(a).contains_key(name) {
                Ok(env.scope_map(a)[name])
            } else {
                Err(VariableError::Unresolved)
            },
            None => Err(VariableError::Unresolved),
        }
    } else {
        match env.lookup(0, name) {
            Some(v) => Ok(v),
            None => Err(VariableError::Undefined),
        }
    }
}

/// The scope an assignment writes: `locals[id]` steps out from the current
/// one when the resolver placed it, else where the globals bind the name.
pub open spec fn assign_target(env: Environment, locals: Map<usize, usize>, name: Seq<char>, id: usize) -> Result<
    int,
    VariableError,
> {
    if locals.contains_key(id) {
        match env.ancestor(env.current_scope(), locals[id] as nat) {
            Some(a) => Ok(a),
            None => Err(VariableError::Unresolved),
        }
    } else {
        match env.holder(0, name) {
            Some(h) => Ok(h),
            None => Err(VariableError::Undefined),
        }
    }
}

/// The global scope of a fresh interpreter: each built-in function bound to
/// its name.
pub open spec fn native_globals() -> Map<Seq<char>, Value> {
    Map::<Seq<char>, Value>::empty().insert("clock"@, Value::Native(NativeFunction::Clock)).insert(
        "readLine"@,
        Value::Native(NativeFunction::ReadLine),
    ).insert("toNumber"@, Value::Native(NativeFunction::ToNumber))
}

impl Default for Interpreter {
    /// A fresh interpreter, as `new` makes it.
    fn default() -> (i: Interpreter)
        ensures
            i.environment.wf(),
            i.environment.scope_count() == 1,
            i.environment.current_scope() == 0,
            i.environment.scope_map(0) == native_globals(),
            i.locals@ == Map::<usize, usize>::empty(),
            i.output@ == Seq::<String>::empty(),
            i.call_stack@ == Seq::<StackFrame>::empty(),
            i.source@ == Seq::<char>::empty(),
    {
        Interpreter::new()
    }
}

impl Interpreter {
    /// A fresh interpreter whose global scope holds the built-in functions
    /// `clock`, `readLine` and `toNumber`.
    pub fn new() -> (i: Interpreter)
        ensures
            i.environment.wf(),
            i.environment.scope_count() == 1,
            i.environment.current_scope() == 0,
            i.environment.scope_map(0) == native_globals(),
            i.locals@ == Map::<usize, usize>::empty(),
            i.output@ == Seq::<String>::empty(),
            i.call_stack@ == Seq::<StackFrame>::empty(),
            i.source@ == Seq::<char>::empty(),
    {
        let mut environment = Environment::new();
        environment.define(owned("clock"), Value::Native(NativeFunction::Clock));
        environment.define(owned("readLine"), Value::Native(NativeFunction::ReadLine));
        environment.define(owned("toNumber"), Value::Native(NativeFunction::ToNumber));
        Interpreter {
            environment,
            locals: HashMap::new(),
            output: Vec::new(),
            call_stack: Vec::new(),
            source: String::new(),
        }
    }

    /// Keep the source code, for line numbers in backtraces.
    pub fn set_source(&mut self, source: &str)
        ensures
            final(self).source@ == source@,
            final(self).environment == old(self).environment,
            final(self).locals@ == old(self).locals@,
            final(self).output@ == old(self).output@,
            final(self).call_stack@ == old(self).call_stack@,
    {
        self.source = owned(source);
    }

    /// The lines printed so far.
    pub fn output(&self) -> (out: &[String])
        ensures
            out@ == self.output@,
    {
        self.output.as_slice()
    }

    /// The value of the variable `name` that the expression `id` reads: in
    /// the scope the resolver found, that many steps out from the current
    /// one, or, when the resolver left it to the globals, looked up from the
    /// global scope. `Undefined` when a global is bound nowhere;
    /// `Unresolved` when the resolver's scope does not exist or does not
    /// bind the name, which the resolver rules out.
    pub fn look_up_variable(&self, name: &str, id: usize) -> (r: Result<Value, VariableError>)
        requires
            self.environment.wf(),
        ensures
            r == variable_value(self.environment, self.locals@, name@, id),
    {
        proof {
            self.environment.lemma_wf();
        }
        match self.locals.get(&id) {
            Some(d) => {
                let d = *d;
                if !self.environment.reaches(d) {
                    return Err(VariableError::Unresolved);
                }
                match self.environment.get_at(d, name) {
                    Some(v) => Ok(v),
                    None => Err(VariableError::Unresolved),
                }
            },
            None => match self.environment.get_from(0, name) {
                Some(v) => Ok(v),
                None => Err(VariableError::Undefined),
            },
        }
    }

    /// Set the variable `name` that the assignment `id` writes to `value`:
    /// in the scope the resolver found, or, when the resolver left it to the
    /// globals, where it is bound looking from the global scope.
    /// `Undefined` when a global is bound nowhere; `Unresolved` when the
    /// resolver's scope does not exist. Nothing changes on an error.
    pub fn assign_variable(&mut self, name: &str, id: usize, value: Value) -> (r: Result<(), VariableError>)
        requires
            old(self).environment.wf(),
        ensures
            final(self).locals@ == old(self).locals@,
            final(self).output@ == old(self).output@,
            final(self).call_stack@ == old(self).call_stack@,
            match assign_target(old(self).environment, old(self).locals@, name@, id) {
                Ok(h) => r is Ok && old(self).environment.updated(final(self).environment, h, name@, value),
                Err(e) => r == Err::<(), VariableError>(e) && final(self).environment == old(self).environment,
            },
    {
        proof {
            self.environment.lemma_wf();
        }
        match self.locals.get(&id) {
            Some(d) => {
                let d = *d;
                if !self.environment.reaches(d) {
                    return Err(VariableError::Unresolved);
                }
                self.environment.assign_at(d, name, value);
                Ok(())
            },
            None => {
                if self.environment.assign_from(0, name, value) {
                    Ok(())
                } else {
                    Err(VariableError::Undefined)
                }
            },
        }
    }

    /// The variables.
    pub fn environment(&self) -> (e: &Environment)
        ensures
            *e == self.environment,
    {
        &self.environment
    }

    /// Add the resolutions of another program (a later REPL line) to those
    /// already known; a later resolution of the same expression wins.
    pub fn merge_locals(&mut self, locals: HashMap<usize, usize>)
        ensures
            forall|k: usize| #[trigger] final(self).locals@.contains_key(k) <==> (old(self).locals@.contains_key(k)
                || locals@.contains_key(k)),
            forall|k: usize| #[trigger] final(self).locals@.contains_key(k) ==> final(self).locals@[k] == (if locals@.contains_key(k) {
                locals@[k]
            } else {
                old(self).locals@[k]
            }),
            final(self).environment == old(self).environment,
            final(self).output@ == old(self).output@,
            final(self).call_stack@ == old(self).call_stack@,
            final(self).source@ == old(self).source@,
    {
        let ghost start = self.locals@;
        let ghost m = locals@;
        for entry in it: locals.iter()
            invariant
                forall|k: usize| #[trigger] self.locals@.contains_key(k) <==> (start.contains_key(k) || exists|j: int|
                    0 <= j < it.index() && *it.seq()[j].0 == k),
                forall|k: usize| #[trigger] self.locals@.contains_key(k) ==> self.locals@[k] == (if exists|j: int|
                    0 <= j < it.index() && *it.seq()[j].0 == k {
                    m[k]
                } else {
                    start[k]
                }),
                it.seq() == vstd::std_specs::iter::IteratorSpec::remaining(&vstd::std_specs::hash::spec_hash_map_iter(&locals)),
                m == locals@,
                self.environment == old(self).environment,
                self.output@ == old(self).output@,
                self.call_stack@ == old(self).call_stack@,
                self.source@ == old(self).source@,
        {
            let (k, v) = entry;
            let ghost i = it.index();
            assert(*it.seq()[i].0 == *k && *it.seq()[i].1 == *v);
            assert(m.contains_key(*it.seq()[i].0) && m[*it.seq()[i].0] == *it.seq()[i].1);
            self.locals.insert(*k, *v);
            assert forall|key: usize| #[trigger] self.locals@.contains_key(key) <==> (start.contains_key(key) || exists|j: int|
                0 <= j < i + 1 && *it.seq()[j].0 == key) by {
                if key == *k {
                    assert(*it.seq()[i].0 == key);
                }
            }
            assert forall|key: usize| #[trigger] self.locals@.contains_key(key) implies self.locals@[key] == (if exists|j: int|
                0 <= j < i + 1 && *it.seq()[j].0 == key {
                m[key]
            } else {
                start[key]
            }) by {
                if key == *k {
                    assert(*it.seq()[i].0 == key);
                }
            }
        }
    }
}

} // verus!
