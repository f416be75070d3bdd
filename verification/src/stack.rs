//! The call stack, which doubles as the variable-binding environment.
//!
//! A frame is abstracted to the mapping from variable names to values; the
//! callee reference, argument expressions and location a frame also carries
//! are diagnostic metadata that never influence evaluation.  The stack's
//! image is the sequence of those mappings, root frame first.
//!
//! Resolution is dynamic: `get_var` scans the live frames from the most
//! recent to the root and returns a copy of the first binding it finds.
//! `set_var` writes into the most recent frame only.

use crate::ast::{Location, Term};
use crate::value::{clone_value, RuntimeValue, ValueV};
use vstd::prelude::*;

verus! {

/// The bindings of one frame: a name-to-value mapping where the last write
/// to a name wins.
#[derive(Debug)]
pub struct Bindings {
    entries: Vec<(String, RuntimeValue)>,
}

/// The mapping a list of writes denotes: every write inserted in order,
/// so a later write to the same name overrides an earlier one.
pub open spec fn map_of(entries: Seq<(String, RuntimeValue)>) -> Map<Seq<char>, ValueV>
    decreases entries,
{
    if entries.len() == 0 {
        Map::empty()
    } else {
        map_of(entries.drop_last()).insert(entries.last().0@, entries.last().1@)
    }
}

impl View for Bindings {
    type V = Map<Seq<char>, ValueV>;

    closed spec fn view(&self) -> Map<Seq<char>, ValueV> {
        map_of(self.entries@)
    }
}

impl Bindings {
    /// An empty mapping.
    pub fn new() -> (r: Bindings)
        ensures
            r@ == Map::<Seq<char>, ValueV>::empty(),
    {
        Bindings { entries: Vec::new() }
    }

    /// Inserts or overwrites the binding for `name`.
    pub fn insert(&mut self, name: String, value: RuntimeValue)
        ensures
            final(self)@ == old(self)@.insert(name@, value@),
    {
        self.entries.push((name, value));
        proof {
            assert(self.entries@.drop_last() =~= old(self).entries@);
        }
    }

    /// Returns the value bound to `name`, if any.
    pub fn get(&self, name: &String) -> (r: Option<&RuntimeValue>)
        ensures
            match r {
                Some(v) => self@.contains_key(name@) && v@ == self@[name@],
                None => !self@.contains_key(name@),
            },
    {
        let mut i: usize = self.entries.len();
        proof {
            assert(self.entries@.take(i as int) =~= self.entries@);
        }
        while i > 0
            invariant
                i <= self.entries@.len(),
                map_of(self.entries@).contains_key(name@) == map_of(
                    self.entries@.take(i as int),
                ).contains_key(name@),
                map_of(self.entries@).contains_key(name@) ==> map_of(self.entries@)[name@]
                    == map_of(self.entries@.take(i as int))[name@],
            decreases i,
        {
            i = i - 1;
            let entry = &self.entries[i];
            proof {
                assert(self.entries@.take(i + 1).drop_last() =~= self.entries@.take(i as int));
                assert(self.entries@.take(i + 1).last() == self.entries@[i as int]);
            }
            if entry.0.eq(name) {
                return Some(&entry.1);
            }
        }
        proof {
            assert(self.entries@.take(0) =~= Seq::<(String, RuntimeValue)>::empty());
        }
        None
    }
}

/// One call frame.  `bindings` is what evaluation reads and writes; the
/// other fields record how the frame came to be, for diagnostics.
#[derive(Debug)]
pub struct Call {
    /// The call-site callee expression; `None` for the root frame.
    pub callee: Option<Term>,
    /// The unevaluated argument expressions supplied at the call site.
    pub arguments: Vec<Term>,
    /// Where the callee was declared, or where the run started.
    pub location: Location,
    /// The frame's variable bindings.
    pub var_scope: Bindings,
}

/// The call stack: root frame first, most recent call last.  Its image is
/// the sequence of the frames' binding maps.
#[derive(Debug)]
pub struct CallStack {
    frames: Vec<Call>,
}

impl View for CallStack {
    type V = Seq<Map<Seq<char>, ValueV>>;

    closed spec fn view(&self) -> Seq<Map<Seq<char>, ValueV>> {
        self.frames@.map_values(|c: Call| c.var_scope@)
    }
}

/// The value dynamic resolution finds for `name`: the binding in the most
/// recent live frame that has one.
pub open spec fn stack_lookup(s: Seq<Map<Seq<char>, ValueV>>, name: Seq<char>) -> Option<ValueV>
    decreases s,
{
    if s.len() == 0 {
        None
    } else if s.last().contains_key(name) {
        Some(s.last()[name])
    } else {
        stack_lookup(s.drop_last(), name)
    }
}

impl CallStack {
    /// An empty stack.  Evaluation requires that a root frame has been
    /// pushed first and the stack therefore never becomes empty again.
    pub fn new() -> (r: CallStack)
        ensures
            r@ == Seq::<Map<Seq<char>, ValueV>>::empty(),
    {
        let r = CallStack { frames: Vec::new() };
        proof {
            assert(r@ =~= Seq::<Map<Seq<char>, ValueV>>::empty());
        }
        r
    }

    /// Appends a frame.
    pub fn push(&mut self, value: Call)
        ensures
            final(self)@ == old(self)@.push(value.var_scope@),
    {
        self.frames.push(value);
        proof {
            assert(self@ =~= old(self)@.push(self.frames@.last().var_scope@));
        }
    }

    /// The number of live frames.
    pub fn len(&self) -> (r: usize)
        ensures
            r == self@.len(),
    {
        self.frames.len()
    }

    /// Removes the most recent frame.
    pub fn pop(&mut self)
        requires
            old(self)@.len() > 0,
        ensures
            final(self)@ == old(self)@.drop_last(),
    {
        self.frames.pop();
        proof {
            assert(self@ =~= old(self)@.drop_last());
        }
    }

    /// Resolves `name` by scanning the live frames from the most recent to
    /// the root, returning a copy of the first binding found.  This is the
    /// dynamic-scoping rule: bindings of suspended callers are visible.
    pub fn get_var(&self, name: &String) -> (r: Option<RuntimeValue>)
        ensures
            match r {
                Some(v) => stack_lookup(self@, name@) == Some(v@),
                None => stack_lookup(self@, name@) is None,
            },
    {
        let mut i: usize = self.frames.len();
        proof {
            assert(self@.take(i as int) =~= self@);
        }
        while i > 0
            invariant
                i <= self.frames@.len(),
                stack_lookup(self@, name@) == stack_lookup(self@.take(i as int), name@),
            decreases i,
        {
            i = i - 1;
            proof {
                assert(self@.take(i + 1).drop_last() =~= self@.take(i as int));
                assert(self@.take(i + 1).last() == self@[i as int]);
                assert(self@[i as int] == self.frames@[i as int].var_scope@);
            }
            match self.frames[i].var_scope.get(name) {
                Some(v) => {
                    return Some(clone_value(v));
                },
                None => {},
            }
        }
        proof {
            assert(self@.take(0) =~= Seq::<Map<Seq<char>, ValueV>>::empty());
        }
        None
    }

    /// Writes `value` under `name` into the most recent frame, inserting or
    /// overwriting.
    pub fn set_var(&mut self, name: &String, value: RuntimeValue)
        requires
            old(self)@.len() > 0,
        ensures
            final(self)@ == old(self)@.update(
                old(self)@.len() - 1,
                old(self)@.last().insert(name@, value@),
            ),
    {
        let i = self.frames.len() - 1;
        let frame = &mut self.frames[i];
        frame.var_scope.insert(name.clone(), value);
        proof {
            assert(self@ =~= old(self)@.update(
                old(self)@.len() - 1,
                old(self)@.last().insert(name@, value@),
            ));
        }
    }
}

} // verus!
