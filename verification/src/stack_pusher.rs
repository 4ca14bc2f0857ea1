//! A cursor for pushing words onto a full-descending stack.

use vstd::prelude::*;
use crate::stack::StackMemory;

verus! {

/// A cursor over a full-descending stack. It holds the address of the word
/// pushed last, or the address it was made with while nothing has been pushed.
pub struct StackPusher {
    cursor: u32,
}

impl View for StackPusher {
    type V = u32;

    /// The address the cursor is at.
    closed spec fn view(&self) -> u32 {
        self.cursor
    }
}

impl StackPusher {
    /// A cursor at `stack_top`. Nothing is ever written at `stack_top` itself,
    /// only below it.
    pub fn new(stack_top: u32) -> (pusher: StackPusher)
        ensures
            pusher@ == stack_top,
    {
        StackPusher { cursor: stack_top }
    }

    /// Moves the cursor down by one word, then writes `value` there.
    pub fn push(&mut self, memory: &mut StackMemory, value: u32)
        requires
            old(memory)@.wf(),
            old(memory)@.contains(old(self)@ - 4),
        ensures
            final(self)@ == old(self)@ - 4,
            final(memory)@ == old(memory)@.written(final(self)@ as int, seq![value]),
    {
        self.cursor = self.cursor - 4;
        memory.write(self.cursor, value);
    }

    /// Pushes the words of `frame`, the last one first, so that the frame then
    /// lies in memory in order, with its first word at the cursor.
    pub fn push_frame(&mut self, memory: &mut StackMemory, frame: &Vec<u32>)
        requires
            old(memory)@.wf(),
            old(memory)@.is_cursor(old(self)@ as int),
            old(memory)@.base + 4 * frame@.len() <= old(self)@,
        ensures
            final(self)@ == old(self)@ - 4 * frame@.len(),
            final(memory)@ == old(memory)@.written(final(self)@ as int, frame@),
    {
        let ghost before = memory@;
        let ghost start = self@;
        let len: usize = frame.len();
        let mut i: usize = len;
        assert(memory@.words =~= before.written(
            self@ as int,
            frame@.subrange(i as int, len as int),
        ).words);
        while i > 0
            invariant
                before.wf(),
                len == frame@.len(),
                i <= len,
                self@ == start - 4 * (len - i),
                before.is_cursor(self@ as int),
                before.base + 4 * i <= self@,
                memory@ == before.written(self@ as int, frame@.subrange(i as int, len as int)),
            decreases i,
        {
            i -= 1;
            self.push(memory, frame[i]);
            assert(memory@.words =~= before.written(
                self@ as int,
                frame@.subrange(i as int, len as int),
            ).words);
        }
        assert(frame@.subrange(0, len as int) =~= frame@);
    }

    /// The address of the word pushed last.
    pub fn current(&self) -> (addr: u32)
        ensures
            addr == self@,
    {
        self.cursor
    }
}

} // verus!
