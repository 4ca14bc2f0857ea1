//! Task stacks: word-addressed memory that grows towards lower addresses.

use vstd::prelude::*;

verus! {

/// `words` with the words of `with` written over it from position `at` on.
pub open spec fn overwritten(words: Seq<u32>, at: int, with: Seq<u32>) -> Seq<u32> {
    Seq::new(
        words.len(),
        |i: int|
            if at <= i < at + with.len() {
                with[i - at]
            } else {
                words[i]
            },
    )
}

/// What a [`StackMemory`] holds: consecutive 32-bit words from a base address
/// upwards.
pub struct MemoryState {
    /// The address of the lowest word.
    pub base: u32,
    /// The words, lowest address first.
    pub words: Seq<u32>,
}

impl MemoryState {
    /// The address one past the highest byte.
    pub open spec fn top(self) -> int {
        self.base + 4 * (self.words.len() as int)
    }

    /// The size in bytes.
    pub open spec fn size(self) -> int {
        4 * (self.words.len() as int)
    }

    /// The base is aligned to eight bytes and the memory ends inside the
    /// 32-bit address space.
    pub open spec fn wf(self) -> bool {
        &&& self.base % 8 == 0
        &&& self.top() <= u32::MAX
    }

    /// Is `addr` the address of a word of this memory?
    pub open spec fn contains(self, addr: int) -> bool {
        &&& self.base <= addr < self.top()
        &&& (addr - self.base) % 4 == 0
    }

    /// Is `addr` a word boundary of this memory, its top included?
    pub open spec fn is_cursor(self, addr: int) -> bool {
        &&& self.base <= addr <= self.top()
        &&& (addr - self.base) % 4 == 0
    }

    /// The position of the word at `addr` among the words.
    pub open spec fn index_of(self, addr: int) -> int {
        (addr - self.base) / 4
    }

    /// The word at `addr`.
    pub open spec fn word(self, addr: int) -> u32 {
        self.words[self.index_of(addr)]
    }

    /// The `len` words from `addr` upwards.
    pub open spec fn words_at(self, addr: int, len: int) -> Seq<u32> {
        self.words.subrange(self.index_of(addr), self.index_of(addr) + len)
    }

    /// This memory with `words` written from `addr` upwards.
    pub open spec fn written(self, addr: int, words: Seq<u32>) -> MemoryState {
        MemoryState { base: self.base, words: overwritten(self.words, self.index_of(addr), words) }
    }
}

/// The memory of one stack.
pub struct StackMemory {
    base: u32,
    words: Vec<u32>,
}

impl View for StackMemory {
    type V = MemoryState;

    closed spec fn view(&self) -> MemoryState {
        MemoryState { base: self.base, words: self.words@ }
    }
}

impl StackMemory {
    /// Zeroed memory of `size` bytes at `base`.
    pub fn new(base: u32, size: usize) -> (memory: StackMemory)
        requires
            base % 8 == 0,
            size % 4 == 0,
            base + size <= u32::MAX,
        ensures
            memory@.wf(),
            memory@.base == base,
            memory@.words == Seq::new((size / 4) as nat, |i: int| 0u32),
    {
        let n: usize = size / 4;
        let memory = StackMemory { base, words: vec![0u32; n] };
        assert(memory@.words =~= Seq::new((size / 4) as nat, |i: int| 0u32));
        memory
    }

    /// The address of the lowest word.
    pub fn base(&self) -> (base: u32)
        ensures
            base == self@.base,
    {
        self.base
    }

    /// The address one past the highest byte.
    pub fn top(&self) -> (top: u32)
        requires
            self@.wf(),
        ensures
            top == self@.top(),
    {
        let len: usize = self.words.len();
        let bytes: u64 = 4 * (len as u64);
        (self.base as u64 + bytes) as u32
    }

    /// The size in bytes.
    pub fn size(&self) -> (size: u32)
        requires
            self@.wf(),
        ensures
            size == self@.size(),
    {
        let len: usize = self.words.len();
        (4 * (len as u64)) as u32
    }

    /// Reads the word at `addr`.
    pub fn read(&self, addr: u32) -> (value: u32)
        requires
            self@.wf(),
            self@.contains(addr as int),
        ensures
            value == self@.word(addr as int),
    {
        let index: usize = ((addr - self.base) / 4) as usize;
        self.words[index]
    }

    /// Reads the `len` words from `addr` upwards.
    pub fn read_frame(&self, addr: u32, len: usize) -> (frame: Vec<u32>)
        requires
            self@.wf(),
            self@.is_cursor(addr as int),
            addr + 4 * len <= self@.top(),
        ensures
            frame@ == self@.words_at(addr as int, len as int),
    {
        let mut frame: Vec<u32> = Vec::new();
        let mut i: usize = 0;
        while i < len
            invariant
                self@.wf(),
                self@.is_cursor(addr as int),
                addr + 4 * len <= self@.top(),
                i <= len,
                frame@ == self@.words_at(addr as int, i as int),
            decreases len - i,
        {
            let at: u32 = addr + 4 * (i as u32);
            let word: u32 = self.read(at);
            frame.push(word);
            i += 1;
            assert(frame@ =~= self@.words_at(addr as int, i as int));
        }
        frame
    }

    /// Writes `value` to the word at `addr`; nothing else changes.
    pub fn write(&mut self, addr: u32, value: u32)
        requires
            old(self)@.wf(),
            old(self)@.contains(addr as int),
        ensures
            final(self)@ == old(self)@.written(addr as int, seq![value]),
    {
        let index: usize = ((addr - self.base) / 4) as usize;
        self.words[index] = value;
        assert(self@.words =~= old(self)@.written(addr as int, seq![value]).words);
    }
}

/// A task stack of `LEN` bytes.
///
/// `LEN` must be a multiple of 4. The stack is aligned to eight bytes, as the
/// Arm procedure-call standard requires. It is a full-descending stack: its
/// top is the address one past its last byte, and nothing is ever written at
/// the top, only below it.
pub struct Stack<const LEN: usize> {
    memory: StackMemory,
}

impl<const LEN: usize> View for Stack<LEN> {
    type V = MemoryState;

    closed spec fn view(&self) -> MemoryState {
        self.memory@
    }
}

impl<const LEN: usize> Stack<LEN> {
    /// The memory is well formed and `LEN` bytes long.
    pub open spec fn wf(&self) -> bool {
        &&& self@.wf()
        &&& self@.size() == LEN
    }

    /// A new stack of zeroed bytes at the address `base`.
    pub fn new(base: u32) -> (stack: Self)
        requires
            LEN % 4 == 0,
            base % 8 == 0,
            base + LEN <= u32::MAX,
        ensures
            stack.wf(),
            stack@.base == base,
            stack@.words == Seq::new((LEN / 4) as nat, |i: int| 0u32),
    {
        Stack { memory: StackMemory::new(base, LEN) }
    }

    /// The top of the stack: the address one past its last byte.
    pub fn top(&self) -> (top: u32)
        requires
            self.wf(),
        ensures
            top == self@.base + LEN,
            top == self@.top(),
    {
        self.memory.top()
    }

    /// Gives up the stack for its memory.
    pub fn into_memory(self) -> (memory: StackMemory)
        ensures
            memory@ == self@,
    {
        self.memory
    }
}

} // verus!
