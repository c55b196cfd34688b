//! Script stack frames, as the host hands them to native function handlers.
use vstd::prelude::*;

use crate::cname::CName;
use crate::rtti::{Function, ValueContainer};
use crate::system::{function_index, RttiSystem};

verus! {

/// A frame of the script call stack: the function it runs, the frame that
/// called it, the position in the function's code, if it has code, and the
/// storage of its locals and parameters.
#[derive(Debug)]
pub struct StackFrame {
    pub func: CName,
    pub parent: Option<Box<StackFrame>>,
    pub code: Option<usize>,
    pub locals: ValueContainer,
    pub params: ValueContainer,
}

/// The frames that called `f`, nearest first.
pub open spec fn callers(f: StackFrame) -> Seq<StackFrame>
    decreases f,
{
    match f.parent {
        Some(p) => seq![*p] + callers(*p),
        None => Seq::empty(),
    }
}

impl StackFrame {
    /// The function the frame runs, when the catalog holds it.
    pub fn func<'a>(&self, rtti: &'a RttiSystem) -> (r: Option<&'a Function>)
        requires
            rtti.wf(),
        ensures
            r matches Some(f) ==> function_index(rtti.spec_functions(), self.func) matches Some(i)
                && *f == rtti.spec_functions()[i],
            r is None ==> function_index(rtti.spec_functions(), self.func) is None,
    {
        rtti.get_function(self.func)
    }

    /// The frame that called this one.
    pub fn parent(&self) -> (r: Option<&StackFrame>)
        ensures
            r matches Some(p) ==> self.parent matches Some(q) && *p == *q,
            r is None ==> self.parent is None,
    {
        match &self.parent {
            Some(p) => Some(&**p),
            None => None,
        }
    }

    /// Every frame that led to this one, nearest first.
    pub fn parent_iter(&self) -> (r: Vec<&StackFrame>)
        ensures
            r@.len() == callers(*self).len(),
            forall|k: int| 0 <= k < r@.len() ==> *r@[k] == callers(*self)[k],
    {
        let mut out: Vec<&StackFrame> = Vec::new();
        let mut cur: &StackFrame = self;
        loop
            invariant
                out@.len() + callers(*cur).len() == callers(*self).len(),
                forall|k: int| 0 <= k < out@.len() ==> *out@[k] == callers(*self)[k],
                forall|k: int|
                    0 <= k < callers(*cur).len() ==> callers(*self)[out@.len() + k] == callers(
                        *cur,
                    )[k],
            decreases callers(*cur).len(),
        {
            match &cur.parent {
                Some(p) => {
                    let next: &StackFrame = &**p;
                    proof {
                        let rest = callers(*next);
                        assert(callers(*cur) == seq![*next] + rest);
                        assert(callers(*cur)[0] == *next);
                        assert(callers(*self)[out@.len() + 0int] == callers(*cur)[0]);
                        assert forall|k: int| 0 <= k < rest.len() implies callers(*self)[(out@.len()
                            + 1) + k] == rest[k] by {
                            assert(callers(*self)[out@.len() + (k + 1)] == callers(*cur)[k + 1]);
                        }
                    }
                    out.push(next);
                    cur = next;
                },
                None => {
                    return out;
                },
            }
        }
    }

    /// Whether the frame runs code of its own.
    pub fn has_code(&self) -> (r: bool)
        ensures
            r == (self.code is Some),
    {
        self.code.is_some()
    }

    /// Where the frame's local variables are stored.
    pub fn locals(&self) -> (r: ValueContainer)
        ensures
            r == self.locals,
    {
        self.locals
    }

    /// Where the frame's parameters are stored.
    pub fn params(&self) -> (r: ValueContainer)
        ensures
            r == self.params,
    {
        self.params
    }

    /// Moves past one opcode of one byte.
    pub fn step(&mut self)
        requires
            old(self).code matches Some(c) ==> c < usize::MAX,
        ensures
            final(self).code == match old(self).code {
                Some(c) => Some((c + 1) as usize),
                None => None,
            },
            final(self).func == old(self).func,
            final(self).parent == old(self).parent,
            final(self).locals == old(self).locals,
            final(self).params == old(self).params,
    {
        if let Some(c) = self.code {
            self.code = Some(c + 1);
        }
    }
}

} // verus!
