use chip8ulator::{Chip8, Chip8Error, Key};

fn machine(rom: &[u8]) -> Chip8 {
    let mut chip8 = Chip8::new();
    chip8.load_rom_from_bytes(rom).unwrap();
    chip8
}

#[test]
fn add_with_carry_sets_flag() {
    // LD V0,200; LD V1,100; ADD V0,V1.
    let mut chip8 = machine(&[0x60, 0xc8, 0x61, 0x64, 0x80, 0x14]);
    chip8.step().unwrap();
    chip8.step().unwrap();
    chip8.step().unwrap();
    assert_eq!(chip8.register(0), 44);
    assert_eq!(chip8.register(15), 1);
}

#[test]
fn add_without_carry_clears_flag() {
    // LD V0,20; LD V1,30; ADD V0,V1.
    let mut chip8 = machine(&[0x60, 0x14, 0x61, 0x1e, 0x80, 0x14]);
    for _ in 0..3 {
        chip8.step().unwrap();
    }
    assert_eq!(chip8.register(0), 50);
    assert_eq!(chip8.register(15), 0);
}

#[test]
fn add_immediate_wraps_without_flag() {
    // LD V0,250; ADD V0,10.
    let mut chip8 = machine(&[0x60, 0xfa, 0x70, 0x0a]);
    chip8.step().unwrap();
    chip8.step().unwrap();
    assert_eq!(chip8.register(0), 4);
    assert_eq!(chip8.register(15), 0);
}

#[test]
fn sub_with_not_borrow_flag() {
    // LD V0,10; LD V1,3; SUB V0,V1.
    let mut chip8 = machine(&[0x60, 0x0a, 0x61, 0x03, 0x80, 0x15]);
    for _ in 0..3 {
        chip8.step().unwrap();
    }
    assert_eq!(chip8.register(0), 7);
    assert_eq!(chip8.register(15), 1);
}

#[test]
fn sub_with_borrow_wraps() {
    // LD V0,3; LD V1,10; SUB V0,V1: 3 - 10 wraps to 249.
    let mut chip8 = machine(&[0x60, 0x03, 0x61, 0x0a, 0x80, 0x15]);
    for _ in 0..3 {
        chip8.step().unwrap();
    }
    assert_eq!(chip8.register(0), 249);
    assert_eq!(chip8.register(15), 0);
}

#[test]
fn subn_reverses_operands() {
    // LD V0,3; LD V1,10; SUBN V0,V1: V0 = 10 - 3.
    let mut chip8 = machine(&[0x60, 0x03, 0x61, 0x0a, 0x80, 0x17]);
    for _ in 0..3 {
        chip8.step().unwrap();
    }
    assert_eq!(chip8.register(0), 7);
    assert_eq!(chip8.register(15), 1);
}

#[test]
fn shr_reports_low_bit() {
    // LD V0,5; SHR V0.
    let mut chip8 = machine(&[0x60, 0x05, 0x80, 0x06]);
    chip8.step().unwrap();
    chip8.step().unwrap();
    assert_eq!(chip8.register(0), 2);
    assert_eq!(chip8.register(15), 1);
}

#[test]
fn shl_reports_high_bit() {
    // LD V0,0x81; SHL V0.
    let mut chip8 = machine(&[0x60, 0x81, 0x80, 0x0e]);
    chip8.step().unwrap();
    chip8.step().unwrap();
    assert_eq!(chip8.register(0), 2);
    assert_eq!(chip8.register(15), 1);
}

#[test]
fn xor_registers() {
    // LD V0,12; LD V1,10; XOR V0,V1.
    let mut chip8 = machine(&[0x60, 0x0c, 0x61, 0x0a, 0x80, 0x13]);
    for _ in 0..3 {
        chip8.step().unwrap();
    }
    assert_eq!(chip8.register(0), 6);
}

#[test]
fn copy_register() {
    // LD V1,9; LD V0,V1.
    let mut chip8 = machine(&[0x61, 0x09, 0x80, 0x10]);
    chip8.step().unwrap();
    chip8.step().unwrap();
    assert_eq!(chip8.register(0), 9);
}

#[test]
fn skip_if_equal_immediate() {
    // SE V0,0 skips the LD V0,1; then LD V1,2 runs.
    let mut chip8 = machine(&[0x30, 0x00, 0x60, 0x01, 0x61, 0x02]);
    chip8.step().unwrap();
    assert_eq!(chip8.pc(), 0x204);
    chip8.step().unwrap();
    assert_eq!(chip8.register(0), 0);
    assert_eq!(chip8.register(1), 2);
}

#[test]
fn skip_if_not_equal_immediate() {
    // SNE V0,5 skips (V0 is 0); SE V0,5 does not skip.
    let mut chip8 = machine(&[0x40, 0x05, 0x60, 0x01, 0x30, 0x05, 0x61, 0x02]);
    chip8.step().unwrap();
    assert_eq!(chip8.pc(), 0x204);
    chip8.step().unwrap();
    assert_eq!(chip8.pc(), 0x206);
    chip8.step().unwrap();
    assert_eq!(chip8.register(1), 2);
}

#[test]
fn jump_sets_pc() {
    let mut chip8 = machine(&[0x12, 0x08]);
    chip8.step().unwrap();
    assert_eq!(chip8.pc(), 0x208);
}

#[test]
fn call_then_ret_returns_after_call() {
    // 0x200: CALL 0x206; 0x202: LD V0,1; 0x204: filler; 0x206: RET.
    let mut chip8 = machine(&[0x22, 0x06, 0x60, 0x01, 0x00, 0x00, 0x00, 0xee]);
    chip8.step().unwrap();
    assert_eq!(chip8.pc(), 0x206);
    chip8.step().unwrap();
    assert_eq!(chip8.pc(), 0x202);
    chip8.step().unwrap();
    assert_eq!(chip8.register(0), 1);
}

#[test]
fn ret_on_empty_stack_fails() {
    let mut chip8 = machine(&[0x00, 0xee]);
    assert_eq!(chip8.step().unwrap_err(), Chip8Error::StackUnderflow);
    // The machine is left as it was.
    assert_eq!(chip8.pc(), 0x200);
}

#[test]
fn call_overflows_after_fifteen_frames() {
    // CALL 0x200 over and over: each call pushes a frame.
    let mut chip8 = machine(&[0x22, 0x00]);
    for _ in 0..15 {
        chip8.step().unwrap();
    }
    assert_eq!(chip8.step().unwrap_err(), Chip8Error::StackOverflow);
    assert_eq!(chip8.pc(), 0x200);
}

#[test]
fn fetch_past_memory_end_fails() {
    // JP 0xfff: the next fetch would need bytes 4095 and 4096.
    let mut chip8 = machine(&[0x1f, 0xff]);
    chip8.step().unwrap();
    assert_eq!(chip8.step().unwrap_err(), Chip8Error::MemOOB { address: 0xfff });
    assert_eq!(chip8.pc(), 0xfff);
}

#[test]
fn unknown_opcode_reported_by_step() {
    let mut chip8 = machine(&[0xff, 0xff]);
    assert_eq!(chip8.step().unwrap_err(), Chip8Error::UnknownOpcode { word: 0xffff });
    assert_eq!(chip8.pc(), 0x200);
}

#[test]
fn index_register_load_and_add() {
    // LD I,0x300; LD V2,5; ADD I,V2.
    let mut chip8 = machine(&[0xa3, 0x00, 0x62, 0x05, 0xf2, 0x1e]);
    for _ in 0..3 {
        chip8.step().unwrap();
    }
    assert_eq!(chip8.index_register(), 0x305);
}

#[test]
fn bcd_store() {
    // LD V3,234; LD I,0x300; LD B,V3.
    let mut chip8 = machine(&[0x63, 0xea, 0xa3, 0x00, 0xf3, 0x33]);
    for _ in 0..3 {
        chip8.step().unwrap();
    }
    assert_eq!(chip8.read(0x300), 2);
    assert_eq!(chip8.read(0x301), 3);
    assert_eq!(chip8.read(0x302), 4);
}

#[test]
fn register_block_store_and_load() {
    // LD V0,1; LD V1,2; LD V2,3; LD I,0x300; LD [I],V2;
    // LD V0,9; LD V1,9; LD V2,9; LD V2,[I].
    let mut chip8 = machine(&[
        0x60, 0x01, 0x61, 0x02, 0x62, 0x03, 0xa3, 0x00, 0xf2, 0x55, 0x60, 0x09, 0x61, 0x09, 0x62,
        0x09, 0xf2, 0x65,
    ]);
    for _ in 0..9 {
        chip8.step().unwrap();
    }
    assert_eq!(chip8.read(0x300), 1);
    assert_eq!(chip8.read(0x301), 2);
    assert_eq!(chip8.read(0x302), 3);
    assert_eq!(chip8.register(0), 1);
    assert_eq!(chip8.register(1), 2);
    assert_eq!(chip8.register(2), 3);
}

#[test]
fn register_block_transfer_is_inclusive() {
    // LD V0,7; LD I,0x300; LD [I],V0: register 0 itself is stored.
    let mut chip8 = machine(&[0x60, 0x07, 0xa3, 0x00, 0xf0, 0x55]);
    for _ in 0..3 {
        chip8.step().unwrap();
    }
    assert_eq!(chip8.read(0x300), 7);
}

#[test]
fn block_store_past_memory_end_fails() {
    // LD I,0xfff; LD [I],V5 needs bytes up to 0xfff + 5.
    let mut chip8 = machine(&[0xaf, 0xff, 0xf5, 0x55]);
    chip8.step().unwrap();
    assert_eq!(chip8.step().unwrap_err(), Chip8Error::MemOOB { address: 0xfff + 5 });
    assert_eq!(chip8.pc(), 0x202);
}

#[test]
fn font_sprite_lookup_for_every_digit() {
    let font = vec![
        0xf0, 0x90, 0x90, 0x90, 0xf0, 0x20, 0x60, 0x20, 0x20, 0x70, 0xf0, 0x10, 0xf0, 0x80, 0xf0,
        0xf0, 0x10, 0xf0, 0x10, 0xf0, 0xa0, 0xa0, 0xf0, 0x20, 0x20, 0xf0, 0x80, 0xf0, 0x10, 0xf0,
        0xf0, 0x80, 0xf0, 0x90, 0xf0, 0xf0, 0x10, 0x20, 0x40, 0x40, 0xf0, 0x90, 0xf0, 0x90, 0xf0,
        0xf0, 0x90, 0xf0, 0x10, 0xf0, 0xf0, 0x90, 0xf0, 0x90, 0x90, 0xe0, 0x90, 0xe0, 0x90, 0xe0,
        0xf0, 0x80, 0x80, 0x80, 0xf0, 0xe0, 0x90, 0x90, 0x90, 0xe0, 0xf0, 0x80, 0xf0, 0x80, 0xf0,
        0xf0, 0x80, 0xf0, 0x80, 0x80,
    ];
    for digit in 0..16u8 {
        // LD V0,digit; LD F,V0.
        let mut chip8 = machine(&[0x60, digit, 0xf0, 0x29]);
        chip8.step().unwrap();
        chip8.step().unwrap();
        let i = chip8.index_register();
        assert_eq!(i, 5 * digit as u16);
        for k in 0..5u16 {
            assert_eq!(chip8.read(i + k), font[(i + k) as usize]);
        }
    }
}

#[test]
fn random_masked_with_zero_is_zero() {
    // RND V0,0x00: whatever the random byte, the mask clears it.
    let mut chip8 = machine(&[0xc0, 0x00]);
    chip8.step().unwrap();
    assert_eq!(chip8.register(0), 0);
}

#[test]
fn random_respects_mask() {
    // RND V1,0x0f: the high nibble must be clear.
    let mut chip8 = machine(&[0xc1, 0x0f]);
    chip8.step().unwrap();
    assert_eq!(chip8.register(1) & 0xf0, 0);
    assert_eq!(chip8.pc(), 0x202);
}

#[test]
fn key_wait_suspends_until_delivery() {
    // LD V5,K; LD VA,0x11.
    let mut chip8 = machine(&[0xf5, 0x0a, 0x6a, 0x11]);
    chip8.step().unwrap();
    assert_eq!(chip8.pc(), 0x202);
    // Waiting: further steps change nothing.
    chip8.step().unwrap();
    chip8.step().unwrap();
    assert_eq!(chip8.pc(), 0x202);
    assert_eq!(chip8.register(10), 0);
    // Delivery writes the key value and execution resumes.
    chip8.key(&Key::KeyA);
    assert_eq!(chip8.register(5), 0x0a);
    chip8.step().unwrap();
    assert_eq!(chip8.register(10), 0x11);
    assert_eq!(chip8.pc(), 0x204);
}

#[test]
fn key_ignored_when_not_waiting() {
    let mut chip8 = machine(&[0x60, 0x01]);
    chip8.key(&Key::Key7);
    for x in 0..16u8 {
        assert_eq!(chip8.register(x), 0);
    }
    chip8.step().unwrap();
    assert_eq!(chip8.register(0), 1);
}
