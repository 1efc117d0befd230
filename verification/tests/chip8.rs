use chip8ulator::{Chip8, Chip8Error};

#[test]
fn rom_loading_from_buffer() {
    let mut chip8 = Chip8::new();
    let rom = vec![0; 3584];
    let res = chip8.load_rom_from_bytes(&rom);
    assert!(res.is_ok());
}

#[test]
fn rom_loading_from_buffer_too_large() {
    let mut chip8 = Chip8::new();
    let rom = vec![0; 3585];
    let res = chip8.load_rom_from_bytes(&rom);
    assert!(res.is_err());
    assert_eq!(res.unwrap_err(), Chip8Error::ROMTooLarge { size: 3585 });
}

fn font_bytes() -> Vec<u8> {
    vec![
        0xf0, 0x90, 0x90, 0x90, 0xf0, 0x20, 0x60, 0x20, 0x20, 0x70, 0xf0, 0x10, 0xf0, 0x80, 0xf0,
        0xf0, 0x10, 0xf0, 0x10, 0xf0, 0xa0, 0xa0, 0xf0, 0x20, 0x20, 0xf0, 0x80, 0xf0, 0x10, 0xf0,
        0xf0, 0x80, 0xf0, 0x90, 0xf0, 0xf0, 0x10, 0x20, 0x40, 0x40, 0xf0, 0x90, 0xf0, 0x90, 0xf0,
        0xf0, 0x90, 0xf0, 0x10, 0xf0, 0xf0, 0x90, 0xf0, 0x90, 0x90, 0xe0, 0x90, 0xe0, 0x90, 0xe0,
        0xf0, 0x80, 0x80, 0x80, 0xf0, 0xe0, 0x90, 0x90, 0x90, 0xe0, 0xf0, 0x80, 0xf0, 0x80, 0xf0,
        0xf0, 0x80, 0xf0, 0x80, 0x80,
    ]
}

#[test]
fn load_sets_pc_and_preserves_font() {
    let mut chip8 = Chip8::new();
    let rom = vec![0xa2, 0xf0, 0x12, 0x00];
    chip8.load_rom_from_bytes(&rom).unwrap();
    assert_eq!(chip8.pc(), 0x200);
    let font = font_bytes();
    for a in 0..80u16 {
        assert_eq!(chip8.read(a), font[a as usize]);
    }
    assert_eq!(chip8.read(0x200), 0xa2);
    assert_eq!(chip8.read(0x201), 0xf0);
    assert_eq!(chip8.read(0x202), 0x12);
    assert_eq!(chip8.read(0x203), 0x00);
    assert_eq!(chip8.read(0x204), 0x00);
}

#[test]
fn load_resets_execution_state() {
    let mut chip8 = Chip8::new();
    // Run a program that moves the machine away from the reset state.
    let rom = vec![0x60, 0x07, 0xa3, 0x00];
    chip8.load_rom_from_bytes(&rom).unwrap();
    chip8.step().unwrap();
    chip8.step().unwrap();
    assert_eq!(chip8.register(0), 7);
    assert_eq!(chip8.index_register(), 0x300);
    assert_eq!(chip8.pc(), 0x204);
    // A fresh load puts everything back.
    chip8.load_rom_from_bytes(&[0x00, 0xe0]).unwrap();
    assert_eq!(chip8.register(0), 0);
    assert_eq!(chip8.index_register(), 0);
    assert_eq!(chip8.pc(), 0x200);
    assert!(!chip8.redraw);
}

#[test]
fn failed_load_leaves_machine_untouched() {
    let mut chip8 = Chip8::new();
    let rom = vec![0x60, 0x07];
    chip8.load_rom_from_bytes(&rom).unwrap();
    chip8.step().unwrap();
    assert_eq!(chip8.register(0), 7);
    let too_big = vec![0xff; 3585];
    assert!(chip8.load_rom_from_bytes(&too_big).is_err());
    // The earlier program and its effects are still in place.
    assert_eq!(chip8.register(0), 7);
    assert_eq!(chip8.pc(), 0x202);
    assert_eq!(chip8.read(0x200), 0x60);
}

#[test]
fn reset_clears_everything() {
    let mut chip8 = Chip8::new();
    let rom = vec![0x60, 0x09];
    chip8.load_rom_from_bytes(&rom).unwrap();
    chip8.step().unwrap();
    chip8.set_delay_timer(9);
    chip8.reset();
    assert_eq!(chip8.register(0), 0);
    assert_eq!(chip8.pc(), 0x200);
    assert_eq!(chip8.delay_timer(), 0);
    assert_eq!(chip8.read(0x200), 0);
    let font = font_bytes();
    assert_eq!(chip8.read(0), font[0]);
}

#[test]
fn mem_image_constructs() {
    let _image = chip8ulator::Mem::new();
}

#[test]
fn timers_read_and_write() {
    let mut chip8 = Chip8::new();
    assert_eq!(chip8.delay_timer(), 0);
    assert_eq!(chip8.sound_timer(), 0);
    chip8.set_delay_timer(60);
    chip8.set_sound_timer(30);
    assert_eq!(chip8.delay_timer(), 60);
    assert_eq!(chip8.sound_timer(), 30);
}

#[test]
fn delay_timer_set_by_program() {
    let mut chip8 = Chip8::new();
    // LD V5,42 then LD DT,V5.
    let rom = vec![0x65, 0x2a, 0xf5, 0x15];
    chip8.load_rom_from_bytes(&rom).unwrap();
    chip8.step().unwrap();
    chip8.step().unwrap();
    assert_eq!(chip8.delay_timer(), 42);
}
