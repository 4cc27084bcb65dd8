use emu_core::hardware::stack::{Stack, StackError, CAPACITY};

#[test]
fn size() {
    let stack = Stack::new();
    assert_eq!(stack.size(), stack.data().len());
}

#[test]
fn push() {
    let mut stack = Stack::new();
    assert_eq!(stack.push(0x200), Ok(()));
    assert_eq!(stack.data()[0], 0x200);
}

#[test]
fn pop() {
    let mut stack = Stack::new();
    assert_eq!(stack.push(0x200), Ok(()));
    assert_eq!(stack.pop(), Ok(0x200));
}

#[test]
fn top() {
    let stack = Stack::new();
    assert_eq!(stack.top(), 0);
}

#[test]
fn capacity_is_sixty_four() {
    assert_eq!(CAPACITY, 64);
    assert_eq!(Stack::new().size(), 64);
}

#[test]
fn new_stack_is_zero_filled() {
    let stack = Stack::new();
    assert_eq!(stack.data(), &[0u16; 64]);
}

#[test]
fn push_moves_the_cursor_up() {
    let mut stack = Stack::new();
    assert_eq!(stack.push(7), Ok(()));
    assert_eq!(stack.top(), 1);
    assert_eq!(stack.push(9), Ok(()));
    assert_eq!(stack.top(), 2);
    assert_eq!(stack.data()[0], 7);
    assert_eq!(stack.data()[1], 9);
    assert_eq!(stack.data()[2], 0);
}

#[test]
fn pop_moves_the_cursor_down_and_keeps_the_slot() {
    let mut stack = Stack::new();
    assert_eq!(stack.push(0xABCD), Ok(()));
    assert_eq!(stack.pop(), Ok(0xABCD));
    assert_eq!(stack.top(), 0);
    assert_eq!(stack.data()[0], 0xABCD);
    assert_eq!(stack.push(0x1234), Ok(()));
    assert_eq!(stack.data()[0], 0x1234);
    assert_eq!(stack.top(), 1);
}

#[test]
fn sixty_four_pushes_succeed_and_the_next_overflows() {
    let mut stack = Stack::new();
    for value in 0..64u16 {
        assert_eq!(stack.push(1000 + value), Ok(()));
    }
    assert_eq!(stack.top(), 64);
    let stored = *stack.data();
    assert_eq!(stack.push(0xFFFF), Err(StackError::StackOverflow));
    assert_eq!(stack.top(), 64);
    assert_eq!(*stack.data(), stored);
    for index in 0..64usize {
        assert_eq!(stack.data()[index], 1000 + index as u16);
    }
    assert_eq!(stack.push(1), Err(StackError::StackOverflow));
    assert_eq!(stack.pop(), Ok(1063));
}

#[test]
fn a_full_stack_takes_a_value_again_after_a_pop() {
    let mut stack = Stack::new();
    for value in 0..64u16 {
        assert_eq!(stack.push(value), Ok(()));
    }
    assert_eq!(stack.pop(), Ok(63));
    assert_eq!(stack.push(500), Ok(()));
    assert_eq!(stack.push(501), Err(StackError::StackOverflow));
    assert_eq!(stack.pop(), Ok(500));
    assert_eq!(stack.pop(), Ok(62));
}

#[test]
fn pops_return_the_pushes_in_reverse() {
    for count in [0u16, 1, 2, 17, 63, 64] {
        let mut stack = Stack::new();
        let values: Vec<u16> = (0..count).map(|index| index.wrapping_mul(977) ^ 0x5A5A).collect();
        for value in &values {
            assert_eq!(stack.push(*value), Ok(()));
        }
        let mut out = Vec::new();
        for _ in 0..count {
            out.push(stack.pop().unwrap());
        }
        let mut reversed = values.clone();
        reversed.reverse();
        assert_eq!(out, reversed);
        assert_eq!(stack.top(), 0);
        assert_eq!(stack.pop(), Err(StackError::StackUnderflow));
    }
}

#[test]
fn three_values_come_back_last_first() {
    let mut stack = Stack::new();
    assert_eq!(stack.push(1), Ok(()));
    assert_eq!(stack.push(2), Ok(()));
    assert_eq!(stack.push(3), Ok(()));
    assert_eq!(stack.pop(), Ok(3));
    assert_eq!(stack.pop(), Ok(2));
    assert_eq!(stack.pop(), Ok(1));
    assert_eq!(stack.top(), 0);
}

#[test]
fn popping_a_new_stack_underflows() {
    let mut stack = Stack::new();
    assert_eq!(stack.pop(), Err(StackError::StackUnderflow));
    assert_eq!(stack.top(), 0);
    assert_eq!(stack.data(), &[0u16; 64]);
    assert_eq!(stack.pop(), Err(StackError::StackUnderflow));
    assert_eq!(stack.push(5), Ok(()));
    assert_eq!(stack.pop(), Ok(5));
}

#[test]
fn popping_an_emptied_stack_underflows() {
    let mut stack = Stack::new();
    assert_eq!(stack.push(11), Ok(()));
    assert_eq!(stack.push(12), Ok(()));
    assert_eq!(stack.pop(), Ok(12));
    assert_eq!(stack.pop(), Ok(11));
    assert_eq!(stack.pop(), Err(StackError::StackUnderflow));
    assert_eq!(stack.top(), 0);
}

#[test]
fn the_two_errors_differ() {
    assert_ne!(StackError::StackOverflow, StackError::StackUnderflow);
    assert_eq!(format!("{:?}", StackError::StackOverflow), "StackOverflow");
    assert_eq!(format!("{:?}", StackError::StackUnderflow), "StackUnderflow");
}

#[test]
fn extreme_values_survive() {
    let mut stack = Stack::new();
    assert_eq!(stack.push(0), Ok(()));
    assert_eq!(stack.push(u16::MAX), Ok(()));
    assert_eq!(stack.pop(), Ok(u16::MAX));
    assert_eq!(stack.pop(), Ok(0));
}
