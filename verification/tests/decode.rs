use chip8ulator::{Chip8Error, OpCode};

#[test]
fn decodes_cls_and_ret() {
    assert_eq!(OpCode::from_instruction(0x00e0).unwrap(), OpCode::CLS);
    assert_eq!(OpCode::from_instruction(0x00ee).unwrap(), OpCode::RET);
}

#[test]
fn decodes_jumps_and_calls() {
    assert_eq!(OpCode::from_instruction(0x1abc).unwrap(), OpCode::JP(0xabc));
    assert_eq!(OpCode::from_instruction(0x2def).unwrap(), OpCode::CALL(0xdef));
}

#[test]
fn decodes_skips() {
    assert_eq!(OpCode::from_instruction(0x3a55).unwrap(), OpCode::SE(0xa, 0x55));
    assert_eq!(OpCode::from_instruction(0x4b66).unwrap(), OpCode::SNE(0xb, 0x66));
}

#[test]
fn decodes_loads_and_adds() {
    assert_eq!(OpCode::from_instruction(0x6c77).unwrap(), OpCode::LDV(0xc, 0x77));
    assert_eq!(OpCode::from_instruction(0x7d88).unwrap(), OpCode::ADD(0xd, 0x88));
    assert_eq!(OpCode::from_instruction(0xa2f0).unwrap(), OpCode::LDI(0x2f0));
}

#[test]
fn decodes_register_ops() {
    assert_eq!(OpCode::from_instruction(0x8120).unwrap(), OpCode::LDVV(1, 2));
    assert_eq!(OpCode::from_instruction(0x8343).unwrap(), OpCode::XOR(3, 4));
    assert_eq!(OpCode::from_instruction(0x8564).unwrap(), OpCode::ADDXY(5, 6));
    assert_eq!(OpCode::from_instruction(0x8785).unwrap(), OpCode::SUBXY(7, 8));
    assert_eq!(OpCode::from_instruction(0x89a6).unwrap(), OpCode::SHR(9));
    assert_eq!(OpCode::from_instruction(0x8bc7).unwrap(), OpCode::SUBN(0xb, 0xc));
    assert_eq!(OpCode::from_instruction(0x8dee).unwrap(), OpCode::SHL(0xd));
}

#[test]
fn decodes_rnd_and_drw() {
    assert_eq!(OpCode::from_instruction(0xc107).unwrap(), OpCode::RND(1, 0x07));
    assert_eq!(OpCode::from_instruction(0xd005).unwrap(), OpCode::DRW(0, 0, 5));
    assert_eq!(OpCode::from_instruction(0xd12a).unwrap(), OpCode::DRW(1, 2, 0xa));
}

#[test]
fn decodes_f_family() {
    assert_eq!(OpCode::from_instruction(0xf10a).unwrap(), OpCode::LDK(1));
    assert_eq!(OpCode::from_instruction(0xf215).unwrap(), OpCode::LDDT(2));
    assert_eq!(OpCode::from_instruction(0xf31e).unwrap(), OpCode::ADDI(3));
    assert_eq!(OpCode::from_instruction(0xf429).unwrap(), OpCode::LDF(4));
    assert_eq!(OpCode::from_instruction(0xf533).unwrap(), OpCode::LDB(5));
    assert_eq!(OpCode::from_instruction(0xf655).unwrap(), OpCode::LDIV(6));
    assert_eq!(OpCode::from_instruction(0xf765).unwrap(), OpCode::LDVI(7));
}

#[test]
fn unknown_words_are_errors() {
    assert_eq!(
        OpCode::from_instruction(0x0000).unwrap_err(),
        Chip8Error::UnknownOpcode { word: 0x0000 }
    );
    assert_eq!(
        OpCode::from_instruction(0x5120).unwrap_err(),
        Chip8Error::UnknownOpcode { word: 0x5120 }
    );
    assert_eq!(
        OpCode::from_instruction(0x8128).unwrap_err(),
        Chip8Error::UnknownOpcode { word: 0x8128 }
    );
    assert_eq!(
        OpCode::from_instruction(0x9ab0).unwrap_err(),
        Chip8Error::UnknownOpcode { word: 0x9ab0 }
    );
    assert_eq!(
        OpCode::from_instruction(0xe09e).unwrap_err(),
        Chip8Error::UnknownOpcode { word: 0xe09e }
    );
    assert_eq!(
        OpCode::from_instruction(0xf007).unwrap_err(),
        Chip8Error::UnknownOpcode { word: 0xf007 }
    );
    assert_eq!(
        OpCode::from_instruction(0xffff).unwrap_err(),
        Chip8Error::UnknownOpcode { word: 0xffff }
    );
}
