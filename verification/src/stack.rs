use vstd::prelude::*;

verus! {

/// Number of return addresses the call stack can hold.
pub const STACK_DEPTH: usize = 16;

/// The call stack: up to sixteen return addresses, the most recent last.
///
/// Its view is the sequence of live return addresses, so the stack pointer is
/// the length of the view. Slots above the stack pointer are not observable.
#[derive(Debug)]
pub struct CallStack {
    frames: [u16; 16],
    depth: u8,
}

impl View for CallStack {
    type V = Seq<u16>;

    closed spec fn view(&self) -> Seq<u16> {
        self.frames@.subrange(0, self.depth as int)
    }
}

impl CallStack {
    #[verifier::type_invariant]
    spec fn within_capacity(self) -> bool {
        self.depth <= STACK_DEPTH
    }

    /// An empty stack.
    pub fn new() -> (stack: CallStack)
        ensures
            stack@ == Seq::<u16>::empty(),
    {
        CallStack { frames: [0u16; 16], depth: 0 }
    }

    /// The stack pointer: how many return addresses are live.
    pub fn depth(&self) -> (depth: u8)
        ensures
            depth == self@.len(),
            depth <= STACK_DEPTH,
    {
        proof {
            use_type_invariant(self);
        }
        self.depth
    }

    /// Whether no further call can be made.
    pub fn is_full(&self) -> (full: bool)
        ensures
            full <==> self@.len() >= STACK_DEPTH,
            self@.len() <= STACK_DEPTH,
    {
        proof {
            use_type_invariant(self);
        }
        self.depth >= 16
    }

    /// The most recent return address, if any call is outstanding.
    pub fn top(&self) -> (top: Option<u16>)
        ensures
            top == if self@.len() == 0 {
                None
            } else {
                Some(self@.last())
            },
    {
        proof {
            use_type_invariant(self);
        }
        if self.depth == 0 {
            None
        } else {
            Some(self.frames[(self.depth - 1) as usize])
        }
    }

    /// The return address in slot `slot`, counted from the oldest call.
    pub fn get(&self, slot: usize) -> (addr: Option<u16>)
        ensures
            addr == if slot < self@.len() {
                Some(self@[slot as int])
            } else {
                None
            },
    {
        proof {
            use_type_invariant(self);
        }
        if slot < self.depth as usize {
            Some(self.frames[slot])
        } else {
            None
        }
    }

    /// Records `addr` as the newest return address. A full stack is left
    /// untouched and the push is refused.
    pub fn push(&mut self, addr: u16) -> (pushed: bool)
        ensures
            pushed <==> old(self)@.len() < STACK_DEPTH,
            final(self)@ == if pushed {
                old(self)@.push(addr)
            } else {
                old(self)@
            },
    {
        proof {
            use_type_invariant(&*self);
        }
        if self.depth >= 16 {
            return false;
        }
        let slot: usize = self.depth as usize;
        self.frames[slot] = addr;
        self.depth = self.depth + 1;
        assert(self@ =~= old(self)@.push(addr));
        true
    }

    /// Removes and returns the newest return address, or returns `None` and
    /// leaves the stack untouched when it is empty.
    pub fn pop(&mut self) -> (addr: Option<u16>)
        ensures
            addr == if old(self)@.len() == 0 {
                None
            } else {
                Some(old(self)@.last())
            },
            final(self)@ == if old(self)@.len() == 0 {
                old(self)@
            } else {
                old(self)@.drop_last()
            },
    {
        proof {
            use_type_invariant(&*self);
        }
        if self.depth == 0 {
            return None;
        }
        self.depth = self.depth - 1;
        let addr: u16 = self.frames[self.depth as usize];
        assert(self@ =~= old(self)@.drop_last());
        Some(addr)
    }
}

} // verus!
