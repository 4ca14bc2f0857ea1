use pets::{Stack, StackMemory, StackPusher};

#[test]
fn stack_top_is_one_past_the_last_byte() {
    let stack = Stack::<1024>::new(0x2000_0000);
    assert_eq!(stack.top(), 0x2000_0400);
    let small = Stack::<76>::new(0x2000_1000);
    assert_eq!(small.top(), 0x2000_104C);
}

#[test]
fn stack_is_zero_initialised() {
    let memory = Stack::<64>::new(0x2000_0000).into_memory();
    assert_eq!(memory.base(), 0x2000_0000);
    assert_eq!(memory.size(), 64);
    assert_eq!(memory.top(), 0x2000_0040);
    assert_eq!(memory.read_frame(0x2000_0000, 16), vec![0u32; 16]);
}

#[test]
fn stack_may_end_at_the_end_of_the_address_space() {
    let stack = Stack::<16>::new(0xFFFF_FFE8);
    assert_eq!(stack.top(), 0xFFFF_FFF8);
}

#[test]
fn memory_write_changes_one_word() {
    let mut memory = StackMemory::new(0x1000, 16);
    memory.write(0x1008, 0xDEAD_BEEF);
    assert_eq!(memory.read(0x1000), 0);
    assert_eq!(memory.read(0x1004), 0);
    assert_eq!(memory.read(0x1008), 0xDEAD_BEEF);
    assert_eq!(memory.read(0x100C), 0);
}

#[test]
fn pusher_starts_at_the_top_and_writes_below_it() {
    let mut memory = StackMemory::new(0x1000, 16);
    let mut pusher = StackPusher::new(memory.top());
    assert_eq!(pusher.current(), 0x1010);
    pusher.push(&mut memory, 0x11);
    assert_eq!(pusher.current(), 0x100C);
    assert_eq!(memory.read(0x100C), 0x11);
    pusher.push(&mut memory, 0x22);
    assert_eq!(pusher.current(), 0x1008);
    assert_eq!(memory.read(0x1008), 0x22);
    assert_eq!(memory.read(0x100C), 0x11);
    assert_eq!(memory.read(0x1004), 0);
}

#[test]
fn pusher_lays_a_frame_out_in_order() {
    let mut memory = StackMemory::new(0x1000, 32);
    let mut pusher = StackPusher::new(0x1018);
    pusher.push_frame(&mut memory, &vec![1, 2, 3]);
    assert_eq!(pusher.current(), 0x100C);
    assert_eq!(memory.read_frame(0x1000, 8), vec![0, 0, 0, 1, 2, 3, 0, 0]);
}

#[test]
fn pusher_can_fill_the_stack_to_its_base() {
    let mut memory = StackMemory::new(0x1000, 8);
    let mut pusher = StackPusher::new(memory.top());
    pusher.push(&mut memory, 7);
    pusher.push(&mut memory, 8);
    assert_eq!(pusher.current(), memory.base());
    assert_eq!(memory.read_frame(0x1000, 2), vec![8, 7]);
}

#[test]
fn read_frame_of_no_words_is_empty() {
    let memory = StackMemory::new(0x1000, 8);
    assert_eq!(memory.read_frame(memory.top(), 0), Vec::<u32>::new());
}
