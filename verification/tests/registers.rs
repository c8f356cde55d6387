use chip8::error::StepError;
use chip8::registers::Registers;

#[test]
fn test_push_pop() {
    let mut registers = Registers::default();
    registers.set_pc(0x42);

    registers.push(0x23).unwrap();
    assert_eq!(registers.sp(), 1);
    assert_eq!(registers.pc(), 0x23);

    registers.push(0x77).unwrap();
    assert_eq!(registers.sp(), 2);
    assert_eq!(registers.pc(), 0x77);

    registers.pop().unwrap();
    assert_eq!(registers.sp(), 1);
    assert_eq!(registers.pc(), 0x23);

    registers.pop().unwrap();
    assert_eq!(registers.sp(), 0);
    assert_eq!(registers.pc(), 0x42);
}

#[test]
fn default_registers_are_zero() {
    let registers = Registers::default();
    for x in 0..16 {
        assert_eq!(registers.v(x), 0);
    }
    assert_eq!(registers.i(), 0);
    assert_eq!(registers.pc(), 0);
    assert_eq!(registers.sp(), 0);
    assert_eq!(registers.delay(), 0);
    assert_eq!(registers.sound(), 0);
    assert_eq!(registers.top(), None);
}

#[test]
fn pop_on_empty_stack_is_an_underflow() {
    let mut registers = Registers::default();
    registers.set_pc(0x300);
    assert_eq!(registers.pop(), Err(StepError::StackUnderflow));
    assert_eq!(registers.pc(), 0x300);
    assert_eq!(registers.sp(), 0);
}

#[test]
fn stack_holds_sixteen_return_addresses() {
    let mut registers = Registers::default();
    registers.set_pc(0x200);
    for level in 0..16u16 {
        assert_eq!(registers.push(0x300 + level), Ok(()));
        assert_eq!(registers.sp() as u16, level + 1);
    }
    // the seventeenth call does not fit
    assert_eq!(registers.push(0x999), Err(StepError::StackOverflow));
    assert_eq!(registers.sp(), 16);
    assert_eq!(registers.pc(), 0x30F);
    assert_eq!(registers.top(), Some(0x30E));
    // and the sixteen addresses come back in reverse order
    for level in (0..16u16).rev() {
        assert_eq!(registers.pop(), Ok(()));
        let expected = if level == 0 { 0x200 } else { 0x300 + level - 1 };
        assert_eq!(registers.pc(), expected);
        assert_eq!(registers.sp() as u16, level);
    }
    assert_eq!(registers.pop(), Err(StepError::StackUnderflow));
}

#[test]
fn push_and_pop_leave_other_registers_alone() {
    let mut registers = Registers::default();
    registers.set_v(3, 0x33);
    registers.set_i(0x123);
    registers.set_delay(9);
    registers.set_sound(8);
    registers.push(0x400).unwrap();
    registers.pop().unwrap();
    assert_eq!(registers.v(3), 0x33);
    assert_eq!(registers.i(), 0x123);
    assert_eq!(registers.delay(), 9);
    assert_eq!(registers.sound(), 8);
}

#[test]
fn timers_count_down_and_stop_at_zero() {
    let mut registers = Registers::default();
    registers.set_delay(2);
    registers.set_sound(1);
    registers.tick();
    assert_eq!((registers.delay(), registers.sound()), (1, 0));
    registers.tick();
    assert_eq!((registers.delay(), registers.sound()), (0, 0));
    registers.tick();
    assert_eq!((registers.delay(), registers.sound()), (0, 0));
}

#[test]
fn setters_touch_one_register_each() {
    let mut registers = Registers::default();
    for x in 0..16 {
        registers.set_v(x, 0x10 + x as u8);
    }
    for x in 0..16 {
        assert_eq!(registers.v(x), 0x10 + x as u8);
    }
    registers.set_pc(0xFFFF);
    registers.set_i(0xFFFE);
    assert_eq!(registers.pc(), 0xFFFF);
    assert_eq!(registers.i(), 0xFFFE);
    assert_eq!(registers.sp(), 0);
}
