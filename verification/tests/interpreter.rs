use chip8::interpreter::Interpreter;

#[test]
fn test_handle_clear() {
    // I = glyph 0; draw it at (V0, V0); clear
    let rom: &[u8] = &[0xA0, 0x00, 0xD0, 0x05, 0x00, 0xE0];
    let mut interpreter = Interpreter::with_rom(rom).unwrap();

    interpreter.step().unwrap();
    interpreter.step().unwrap();
    assert!(interpreter.display().pixels().iter().any(|lit| *lit));

    interpreter.step().unwrap();
    assert!(interpreter.display().pixels().iter().all(|lit| !*lit));
    assert_eq!(interpreter.registers().pc(), 0x206);
}

#[test]
fn test_handle_jump() {
    let rom: &[u8] = &[0x17, 0x89];
    let mut interpreter = Interpreter::with_rom(rom).unwrap();

    interpreter.step().unwrap();

    assert_eq!(interpreter.registers().pc(), 0x789);
}

#[test]
fn test_handle_push() {
    let rom: &[u8] = &[0x21, 0x23];
    let mut interpreter = Interpreter::with_rom(rom).unwrap();

    interpreter.step().unwrap();
    assert_eq!(interpreter.registers().sp(), 1);
    assert_eq!(interpreter.registers().pc(), 0x123);
}

#[test]
fn test_handle_pop() {
    let rom: &[u8] = &[0x22, 0x06, 0x00, 0xE0, 0x00, 0xE0, 0x00, 0xEE];
    let mut interpreter = Interpreter::with_rom(rom).unwrap();

    interpreter.step().unwrap();
    assert_eq!(interpreter.registers().sp(), 1);
    assert_eq!(interpreter.registers().pc(), 0x206);

    interpreter.step().unwrap();
    assert_eq!(interpreter.registers().sp(), 0);
    assert_eq!(interpreter.registers().pc(), 0x202);
}

fn check_skip_if_equal_immediate(x: u8, vx: u8, k: u8, pc: u16) {
    let rom: &[u8] = &[0x30 | x, k];
    let mut interpreter = Interpreter::with_rom(rom).unwrap();
    interpreter.registers_mut().set_v(x as usize, vx);

    interpreter.step().unwrap();

    assert_eq!(interpreter.registers().pc(), pc);
}

#[test]
fn test_handle_skip_if_equal_immediate_vx_equals_k() {
    check_skip_if_equal_immediate(3, 15, 15, 0x204);
}

#[test]
fn test_handle_skip_if_equal_immediate_vx_does_not_equal_k() {
    check_skip_if_equal_immediate(7, 0x42, 0x23, 0x202);
}

fn check_skip_if_not_equal_immediate(x: u8, vx: u8, k: u8, pc: u16) {
    let rom: &[u8] = &[0x40 | x, k];
    let mut interpreter = Interpreter::with_rom(rom).unwrap();
    interpreter.registers_mut().set_v(x as usize, vx);

    interpreter.step().unwrap();

    assert_eq!(interpreter.registers().pc(), pc);
}

#[test]
fn test_handle_skip_if_not_equal_immediate_vx_equals_k() {
    check_skip_if_not_equal_immediate(0xA, 0x18, 0x18, 0x202);
}

#[test]
fn test_handle_skip_if_not_equal_immediate_vx_does_not_equal_k() {
    check_skip_if_not_equal_immediate(0xB, 0x13, 0x55, 0x204);
}

fn check_skip_if_equal_register(x: u8, y: u8, vx: u8, vy: u8, pc: u16) {
    let rom: &[u8] = &[0x50 | x, y << 4];
    let mut interpreter = Interpreter::with_rom(rom).unwrap();
    interpreter.registers_mut().set_v(x as usize, vx);
    interpreter.registers_mut().set_v(y as usize, vy);

    interpreter.step().unwrap();

    assert_eq!(interpreter.registers().pc(), pc);
}

#[test]
fn test_handle_skip_if_equal_register_vx_equals_vy() {
    check_skip_if_equal_register(0xA, 0x0, 0x18, 0x18, 0x204);
}

#[test]
fn test_handle_skip_if_equal_register_vx_does_not_equal_vy() {
    check_skip_if_equal_register(0x7, 0x5, 1, 0x55, 0x202);
}

#[test]
fn test_handle_load_register_immediate() {
    let rom: &[u8] = &[0x61, 0x23];
    let mut interpreter = Interpreter::with_rom(rom).unwrap();

    interpreter.step().unwrap();

    assert_eq!(interpreter.registers().v(1), 0x23);
}

#[test]
fn test_handle_add_register_immediate() {
    let rom: &[u8] = &[0x73, 0x21, 0x73, 0x10];
    let mut interpreter = Interpreter::with_rom(rom).unwrap();

    interpreter.step().unwrap();
    interpreter.step().unwrap();

    assert_eq!(interpreter.registers().v(3), 0x31);
}

#[test]
fn test_handle_load_register_register() {
    let rom: &[u8] = &[0x8A, 0xC0];
    let mut interpreter = Interpreter::with_rom(rom).unwrap();

    interpreter.registers_mut().set_v(0xC, 0x23);

    interpreter.step().unwrap();

    assert_eq!(interpreter.registers().v(0xA), 0x23);
}

#[test]
fn test_handle_or_register_register() {
    let rom: &[u8] = &[0x8B, 0xD1];
    let mut interpreter = Interpreter::with_rom(rom).unwrap();

    interpreter.registers_mut().set_v(0xB, 0x23);
    interpreter.registers_mut().set_v(0xD, 0x42);

    interpreter.step().unwrap();

    assert_eq!(interpreter.registers().v(0xB), 0x63);
}

#[test]
fn test_handle_and_register_register() {
    let rom: &[u8] = &[0x8E, 0x12];
    let mut interpreter = Interpreter::with_rom(rom).unwrap();

    interpreter.registers_mut().set_v(0xE, 0x23);
    interpreter.registers_mut().set_v(0x1, 0x42);

    interpreter.step().unwrap();

    assert_eq!(interpreter.registers().v(0xE), 0x2);
}

#[test]
fn test_handle_xor_register_register() {
    let rom: &[u8] = &[0x89, 0x73];
    let mut interpreter = Interpreter::with_rom(rom).unwrap();

    interpreter.registers_mut().set_v(0x9, 0x15);
    interpreter.registers_mut().set_v(0x7, 0x37);

    interpreter.step().unwrap();

    assert_eq!(interpreter.registers().v(0x9), 0x22);
}

fn check_add_register_register(x: u8, y: u8, vx: u8, vy: u8, result: u8, carry: u8) {
    let rom: &[u8] = &[0x80 | x, (y << 4) | 0x4];
    let mut interpreter = Interpreter::with_rom(rom).unwrap();
    interpreter.registers_mut().set_v(x as usize, vx);
    interpreter.registers_mut().set_v(y as usize, vy);

    interpreter.step().unwrap();

    assert_eq!(interpreter.registers().v(x as usize), result, "Result wrong");
    assert_eq!(interpreter.registers().v(0xF), carry, "Carry wrong");
}

#[test]
fn test_handle_add_register_register_no_overflow() {
    check_add_register_register(0xB, 0x3, 5, 3, 8, 0);
}

#[test]
fn test_handle_add_register_register_overflow() {
    check_add_register_register(0x2, 0x9, 0xFA, 0x13, 0xD, 1);
}

#[test]
fn test_handle_add_register_register_target_vf_overflow() {
    check_add_register_register(0xF, 0x0, 0xAA, 0xBB, 1, 1);
}

#[test]
fn test_handle_add_register_register_target_vf_no_overflow() {
    check_add_register_register(0xF, 0x7, 17, 58, 0, 0);
}

#[test]
fn add_register_register_three_plus_five() {
    check_add_register_register(0x1, 0x2, 0x03, 0x05, 0x08, 0);
}

#[test]
fn add_register_register_sum_of_exactly_255_does_not_carry() {
    check_add_register_register(0x1, 0x2, 0xF0, 0x0F, 0xFF, 0);
}

#[test]
fn add_register_register_sum_of_exactly_256_carries() {
    check_add_register_register(0x1, 0x2, 0xF0, 0x10, 0x00, 1);
}

fn check_sub_register_register(x: u8, y: u8, vx: u8, vy: u8, result: u8, underflow: u8) {
    let rom: &[u8] = &[0x80 | x, (y << 4) | 0x5];
    let mut interpreter = Interpreter::with_rom(rom).unwrap();
    interpreter.registers_mut().set_v(x as usize, vx);
    interpreter.registers_mut().set_v(y as usize, vy);

    interpreter.step().unwrap();

    assert_eq!(interpreter.registers().v(x as usize), result, "Result wrong");
    assert_eq!(interpreter.registers().v(0xF), underflow, "Underflow wrong");
}

#[test]
fn test_handle_sub_register_register_no_underflow() {
    check_sub_register_register(0xC, 0x2, 25, 12, 13, 1);
}

#[test]
fn test_handle_sub_register_register_underflow() {
    check_sub_register_register(0xD, 0x4, 0x13, 0x15, 0b11111110, 0);
}

#[test]
fn test_handle_sub_register_register_target_vf_underflow() {
    check_sub_register_register(0xF, 0x0, 5, 7, 0, 0);
}

#[test]
fn test_handle_sub_register_register_target_vf_no_underflow() {
    check_sub_register_register(0xF, 0xE, 7, 5, 1, 1);
}

#[test]
fn sub_register_register_equal_operands_clear_the_flag() {
    check_sub_register_register(0x1, 0x2, 9, 9, 0, 0);
}

fn check_shift_right_register_one(x: u8, y: u8, vx: u8, result: u8, underflow: u8) {
    let rom: &[u8] = &[0x80 | x, (y << 4) | 0x6];
    let mut interpreter = Interpreter::with_rom(rom).unwrap();
    interpreter.registers_mut().set_v(x as usize, vx);

    interpreter.step().unwrap();

    assert_eq!(interpreter.registers().v(x as usize), result, "Result wrong");
    assert_eq!(interpreter.registers().v(0xF), underflow, "Underflow wrong");
}

#[test]
fn test_handle_shift_right_register_one_no_underflow() {
    check_shift_right_register_one(0x0, 0x2, 8, 4, 0);
}

#[test]
fn test_handle_shift_right_register_one_underflow() {
    check_shift_right_register_one(0xE, 0xA, 0b10110011, 0b01011001, 1);
}

#[test]
fn test_handle_shift_right_register_one_target_vf_underflow() {
    check_shift_right_register_one(0xF, 0x2, 0b101, 1, 1);
}

#[test]
fn test_handle_shift_right_register_one_target_vf_no_underflow() {
    check_shift_right_register_one(0xF, 0x3, 0b110, 0, 0);
}

fn check_sub_register_register_negated(x: u8, y: u8, vx: u8, vy: u8, result: u8, underflow: u8) {
    let rom: &[u8] = &[0x80 | x, (y << 4) | 0x7];
    let mut interpreter = Interpreter::with_rom(rom).unwrap();
    interpreter.registers_mut().set_v(x as usize, vx);
    interpreter.registers_mut().set_v(y as usize, vy);

    interpreter.step().unwrap();

    assert_eq!(interpreter.registers().v(x as usize), result, "Result wrong");
    assert_eq!(interpreter.registers().v(0xF), underflow, "Underflow wrong");
}

#[test]
fn test_handle_sub_register_register_negated_no_underflow() {
    check_sub_register_register_negated(0xD, 0x4, 0x13, 0x15, 0x2, 1);
}

#[test]
fn test_handle_sub_register_register_negated_underflow() {
    check_sub_register_register_negated(0xC, 0x2, 50, 25, 0b1110_0111, 0);
}

#[test]
fn test_handle_sub_register_register_negated_target_vf_underflow() {
    check_sub_register_register_negated(0xF, 0xE, 7, 5, 0, 0);
}

#[test]
fn test_handle_sub_register_register_negated_target_vf_no_underflow() {
    check_sub_register_register_negated(0xF, 0x0, 5, 7, 1, 1);
}

fn check_shift_left_register_one(x: u8, y: u8, vx: u8, result: u8, overflow: u8) {
    let rom: &[u8] = &[0x80 | x, (y << 4) | 0xE];
    let mut interpreter = Interpreter::with_rom(rom).unwrap();
    interpreter.registers_mut().set_v(x as usize, vx);

    interpreter.step().unwrap();

    assert_eq!(interpreter.registers().v(x as usize), result, "Result wrong");
    assert_eq!(interpreter.registers().v(0xF), overflow, "Overflow wrong");
}

#[test]
fn test_handle_shift_left_register_one_no_overflow() {
    check_shift_left_register_one(0x5, 0x3, 8, 16, 0);
}

#[test]
fn test_handle_shift_left_register_one_overflow() {
    check_shift_left_register_one(0xA, 0xF, 0b1011_0011, 0b0110_0110, 1);
}

#[test]
fn test_handle_shift_left_register_one_target_vf_overflow() {
    check_shift_left_register_one(0xF, 0xA, 0xFE, 1, 1);
}

#[test]
fn test_handle_shift_left_register_one_target_vf_no_overflow() {
    check_shift_left_register_one(0xF, 0x7, 0b110, 0, 0);
}

fn check_skip_if_not_equal_register(x: u8, y: u8, vx: u8, vy: u8, pc: u16) {
    let rom: &[u8] = &[0x90 | x, y << 4];
    let mut interpreter = Interpreter::with_rom(rom).unwrap();
    interpreter.registers_mut().set_v(x as usize, vx);
    interpreter.registers_mut().set_v(y as usize, vy);

    interpreter.step().unwrap();

    assert_eq!(interpreter.registers().pc(), pc);
}

#[test]
fn test_handle_skip_if_not_equal_register_vx_equals_vy() {
    check_skip_if_not_equal_register(0xA, 0x0, 0x18, 0x18, 0x202);
}

#[test]
fn test_handle_skip_if_not_equal_register_vx_does_not_equal_vy() {
    check_skip_if_not_equal_register(0x7, 0x5, 1, 0x55, 0x204);
}

#[test]
fn test_handle_load_immediate_into_i() {
    let rom: &[u8] = &[0xA6, 0x78];
    let mut interpreter = Interpreter::with_rom(rom).unwrap();

    interpreter.step().unwrap();

    assert_eq!(interpreter.registers().i(), 0x678);
}

#[test]
fn test_handle_jump_relative() {
    let rom: &[u8] = &[0xB6, 0x78];
    let mut interpreter = Interpreter::with_rom(rom).unwrap();
    interpreter.registers_mut().set_v(0, 0x13);

    interpreter.step().unwrap();

    assert_eq!(interpreter.registers().pc(), 0x678 + 0x13);
}

#[test]
fn test_handle_random() {
    let rom: &[u8] = &[0xC1, 0xFF];
    let mut interpreter = Interpreter::with_rom(rom).unwrap();

    interpreter.step().unwrap();

    assert_ne!(interpreter.registers().v(1), 0);
}

fn check_skip_if_key_pressed(x: u8, vx: u8, key: Option<u8>, pc: u16) {
    let rom: &[u8] = &[0xE0 | x, 0x9E];
    let mut interpreter = Interpreter::with_rom(rom).unwrap();

    if let Some(keycode) = key {
        interpreter.keyboard_mut().press_key(keycode)
    }

    interpreter.registers_mut().set_v(x as usize, vx);

    interpreter.step().unwrap();

    assert_eq!(interpreter.registers().pc(), pc);
}

#[test]
fn test_handle_skip_if_key_pressed_wanted_key_is_pressed() {
    check_skip_if_key_pressed(0x3, 0x5, Some(0x5), 0x204);
}

#[test]
fn test_handle_skip_if_key_pressed_no_key_pressed() {
    check_skip_if_key_pressed(0xE, 0x1, None, 0x202);
}

#[test]
fn test_handle_skip_if_key_pressed_different_pressed() {
    check_skip_if_key_pressed(0x7, 0xB, Some(0xE), 0x202);
}

fn check_skip_if_key_not_pressed(x: u8, vx: u8, key: Option<u8>, pc: u16) {
    let rom: &[u8] = &[0xE0 | x, 0xA1];
    let mut interpreter = Interpreter::with_rom(rom).unwrap();

    if let Some(keycode) = key {
        interpreter.keyboard_mut().press_key(keycode)
    }

    interpreter.registers_mut().set_v(x as usize, vx);

    interpreter.step().unwrap();

    assert_eq!(interpreter.registers().pc(), pc);
}

#[test]
fn test_handle_skip_if_key_not_pressed_specified_key_is_pressed() {
    check_skip_if_key_not_pressed(0x3, 0x5, Some(0x5), 0x202);
}

#[test]
fn test_handle_skip_if_key_not_pressed_no_key_pressed() {
    check_skip_if_key_not_pressed(0xE, 0x1, None, 0x204);
}

#[test]
fn test_handle_skip_if_key_not_pressed_different_pressed() {
    check_skip_if_key_not_pressed(0x7, 0xB, Some(0xE), 0x204);
}

fn check_wait_for_keypress(x: u8, key: Option<u8>, pc: u16, vx: u8) {
    let rom: &[u8] = &[0xF0 | x, 0x0A, 0xF0 | x, 0x0A];
    let mut interpreter = Interpreter::with_rom(rom).unwrap();

    // Press before waiting, should not complete the wait
    if let Some(keycode) = key {
        interpreter.keyboard_mut().press_key(keycode);
        interpreter.keyboard_mut().release_key(keycode);
    }

    // Wait for keypress
    interpreter.step().unwrap();

    assert_eq!(interpreter.registers().pc(), 0x200);
    assert_eq!(interpreter.registers().v(x as usize), 0);

    // If we press now, then it should complete
    if let Some(keycode) = key {
        interpreter.keyboard_mut().press_key(keycode);
        interpreter.keyboard_mut().release_key(keycode);
    }

    interpreter.step().unwrap();

    assert_eq!(interpreter.registers().pc(), pc);
    assert_eq!(interpreter.registers().v(x as usize), vx);
}

#[test]
fn test_handle_wait_for_keypress_not_pressed() {
    check_wait_for_keypress(0x3, None, 0x200, 0);
}

#[test]
fn test_handle_wait_for_keypress_pressed() {
    check_wait_for_keypress(0xE, Some(0xA), 0x202, 0xA);
}

#[test]
fn wait_for_keypress_is_not_resolved_by_a_press_alone() {
    let rom: &[u8] = &[0xF4, 0x0A];
    let mut interpreter = Interpreter::with_rom(rom).unwrap();
    interpreter.step().unwrap();
    interpreter.keyboard_mut().press_key(0x9);
    for _ in 0..5 {
        interpreter.step().unwrap();
        assert_eq!(interpreter.registers().pc(), 0x200);
        assert_eq!(interpreter.registers().v(4), 0);
    }
    interpreter.keyboard_mut().release_key(0x9);
    interpreter.step().unwrap();
    assert_eq!(interpreter.registers().pc(), 0x202);
    assert_eq!(interpreter.registers().v(4), 0x9);
}

#[test]
fn test_load_delay_timer_register() {
    let rom: &[u8] = &[0xFA, 0x15];
    let mut interpreter = Interpreter::with_rom(rom).unwrap();
    interpreter.registers_mut().set_v(0xA, 23);

    interpreter.step().unwrap();

    assert_eq!(interpreter.registers().v(0xA), 23);
}

fn check_add_i_register(x: u8, vx: u8, i: u16, result: u16) {
    let rom: &[u8] = &[0xF0 | x, 0x1E];
    let mut interpreter = Interpreter::with_rom(rom).unwrap();

    interpreter.registers_mut().set_i(i);
    interpreter.registers_mut().set_v(x as usize, vx);

    interpreter.step().unwrap();

    assert_eq!(interpreter.registers().i(), result);
}

#[test]
fn test_handle_add_i_register_no_overflow() {
    check_add_i_register(0x5, 5, 7, 12);
}

#[test]
fn test_handle_add_i_register_overflow() {
    check_add_i_register(0x5, 0xFA, 0xFFFA, 0xF4);
}

#[test]
fn handle_load_digit_sprite_location() {
    let rom: &[u8] = &[0xF7, 0x29];
    let mut interpreter = Interpreter::with_rom(rom).unwrap();
    interpreter.registers_mut().set_v(0x7, 0x7);

    interpreter.step().unwrap();

    assert_eq!(interpreter.registers().i(), 0x7 * 5);
}

fn check_bcd(x: u8, vx: u8, hundreds: u8, tens: u8, ones: u8) {
    let rom: &[u8] = &[0xF0 | x, 0x33];
    let mut interpreter = Interpreter::with_rom(rom).unwrap();
    interpreter.registers_mut().set_v(x as usize, vx);

    interpreter.step().unwrap();

    let i = interpreter.registers().i() as usize;
    assert_eq!(interpreter.memory().get(i + 0), hundreds, "xyz");
    assert_eq!(interpreter.memory().get(i + 1), tens, "yz");
    assert_eq!(interpreter.memory().get(i + 2), ones, "z");
}

#[test]
fn test_handle_bcd_xyz() {
    check_bcd(0x5, 223, 2, 2, 3);
}

#[test]
fn test_handle_bcd_x0z() {
    check_bcd(0x5, 109, 1, 0, 9);
}

#[test]
fn test_handle_bcd_yz() {
    check_bcd(0x3, 42, 0, 4, 2);
}

#[test]
fn test_handle_bcd_z() {
    check_bcd(0xA, 7, 0, 0, 7);
}

#[test]
fn test_handle_store_registers_in_memory() {
    let values: Vec<u8> = vec![116, 58, 224, 135, 225, 142, 236, 47, 66, 29, 230, 171, 127, 21, 11, 147];

    for x in 0..16 {
        let rom: &[u8] = &[0xF0 | x, 0x55];
        let mut interpreter = Interpreter::with_rom(rom).unwrap();
        interpreter.registers_mut().set_i(0x400);

        for i in 0..16 {
            interpreter.registers_mut().set_v(i, values[i]);
        }

        interpreter.step().unwrap();

        for i in 0..=x as usize {
            assert_eq!(
                interpreter.memory().get(interpreter.registers().i() as usize + i),
                values[i]
            );
        }

        for i in (x + 1) as usize..16 {
            assert_eq!(interpreter.memory().get(interpreter.registers().i() as usize + i), 0);
        }
    }
}

#[test]
fn test_handle_load_registers_from_memory() {
    let values: Vec<u8> = vec![116, 58, 224, 135, 225, 142, 236, 47, 66, 29, 230, 171, 127, 21, 11, 147];

    for x in 0..16 {
        let rom: &[u8] = &[0xF0 | x, 0x65];
        let mut interpreter = Interpreter::with_rom(rom).unwrap();
        interpreter.registers_mut().set_i(0x400);

        for i in 0..16 {
            let addr = interpreter.registers().i() as usize + i;
            interpreter.memory_mut().set(addr, values[i]);
        }

        interpreter.step().unwrap();

        for i in 0..=x as usize {
            assert_eq!(interpreter.registers().v(i), values[i]);
        }

        for i in (x + 1) as usize..16 {
            assert_eq!(interpreter.registers().v(i), 0);
        }
    }
}

#[test]
fn handle_load_registers_from_memory() {
    let rom: &[u8] = &[0xA6, 0x78];
    let mut interpreter = Interpreter::with_rom(rom).unwrap();

    interpreter.step().unwrap();

    assert_eq!(interpreter.registers().i(), 0x678);
}
