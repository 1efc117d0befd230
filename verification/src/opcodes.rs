//! The instruction decoder: a pure mapping from a 16-bit instruction word to
//! a tagged operation, by fixed bit-field conventions.  The high nibble
//! selects the family; several families use a second-level nibble or the low
//! byte to select the specific operation.

use vstd::prelude::*;

use crate::Chip8Error;

verus! {

/// One decoded instruction.  `x` and `y` name general-purpose registers,
/// `kk` is an immediate byte, `nnn` a 12-bit address, `n` a sprite height.
#[derive(Debug, Copy, Clone, PartialEq, Eq, Structural)]
pub enum OpCode {
    /// 00E0: clear the framebuffer.
    CLS,
    /// 00EE: return from a subroutine.
    RET,
    /// 1nnn: jump to nnn.
    JP(u16),
    /// Annn: load nnn into the index register.
    LDI(u16),
    /// 6xkk: load kk into register x.
    LDV(usize, u8),
    /// Dxyn: draw the n-byte sprite at memory `I` to (Vx, Vy) by XOR;
    /// register 15 reports a collision.
    DRW(usize, usize, usize),
    /// 7xkk: add kk to Vx, wrapping, no flag.
    ADD(usize, u8),
    /// Fx55: store registers 0 through x to memory starting at `I`.
    LDIV(usize),
    /// Fx65: load registers 0 through x from memory starting at `I`.
    LDVI(usize),
    /// Fx1E: add Vx to the index register.
    ADDI(usize),
    /// 3xkk: skip the next instruction if Vx == kk.
    SE(usize, u8),
    /// Fx0A: suspend until a key is delivered into Vx.
    LDK(usize),
    /// Cxkk: load a random byte ANDed with kk into Vx.
    RND(usize, u8),
    /// 8xy0: copy Vy into Vx.
    LDVV(usize, usize),
    /// 2nnn: call the subroutine at nnn.
    CALL(usize),
    /// Fx29: point the index register at the glyph sprite for digit Vx.
    LDF(usize),
    /// 4xkk: skip the next instruction if Vx != kk.
    SNE(usize, u8),
    /// Fx33: store the decimal digits of Vx at `I`, `I+1`, `I+2`.
    LDB(usize),
    /// 8xy4: Vx += Vy, register 15 reports the carry.
    ADDXY(usize, usize),
    /// 8xy5: Vx -= Vy, register 15 reports not-borrow.
    SUBXY(usize, usize),
    /// 8xy7: Vx = Vy - Vx, register 15 reports not-borrow.
    SUBN(usize, usize),
    /// 8xy6: Vx >>= 1, register 15 takes the shifted-out bit.
    SHR(usize),
    /// 8xyE: Vx <<= 1, register 15 takes the shifted-out bit.
    SHL(usize),
    /// 8xy3: Vx ^= Vy.
    XOR(usize, usize),
    /// Fx15: set the delay timer to Vx.
    LDDT(usize),
}

impl OpCode {
    /// Every operand is in range: register indices below 16, addresses at
    /// most 0xfff, sprite heights at most 15.
    pub open spec fn wf(self) -> bool {
        match self {
            OpCode::CLS => true,
            OpCode::RET => true,
            OpCode::JP(a) => a <= 0xfff,
            OpCode::LDI(a) => a <= 0xfff,
            OpCode::LDV(x, kk) => x < 16,
            OpCode::DRW(x, y, n) => x < 16 && y < 16 && n < 16,
            OpCode::ADD(x, kk) => x < 16,
            OpCode::LDIV(x) => x < 16,
            OpCode::LDVI(x) => x < 16,
            OpCode::ADDI(x) => x < 16,
            OpCode::SE(x, kk) => x < 16,
            OpCode::LDK(x) => x < 16,
            OpCode::RND(x, kk) => x < 16,
            OpCode::LDVV(x, y) => x < 16 && y < 16,
            OpCode::CALL(a) => a <= 0xfff,
            OpCode::LDF(x) => x < 16,
            OpCode::SNE(x, kk) => x < 16,
            OpCode::LDB(x) => x < 16,
            OpCode::ADDXY(x, y) => x < 16 && y < 16,
            OpCode::SUBXY(x, y) => x < 16 && y < 16,
            OpCode::SUBN(x, y) => x < 16 && y < 16,
            OpCode::SHR(x) => x < 16,
            OpCode::SHL(x) => x < 16,
            OpCode::XOR(x, y) => x < 16 && y < 16,
            OpCode::LDDT(x) => x < 16,
        }
    }

    /// What [`OpCode::from_instruction`] returns: the decode table itself,
    /// as a mathematical function of the instruction word.
    pub open spec fn spec_decode(ins: u16) -> Result<OpCode, Chip8Error> {
        let hi = ins >> 12;
        let x = ((ins >> 8) & 0xf) as usize;
        let y = ((ins >> 4) & 0xf) as usize;
        let kk = (ins & 0xff) as u8;
        let nnn = ins & 0xfff;
        let n = (ins & 0xf) as usize;
        let sub = ins & 0xff;
        let low = ins & 0xf;
        if hi == 0x0 {
            if sub == 0xe0 {
                Ok(OpCode::CLS)
            } else if sub == 0xee {
                Ok(OpCode::RET)
            } else {
                Err(Chip8Error::UnknownOpcode { word: ins })
            }
        } else if hi == 0x1 {
            Ok(OpCode::JP(nnn))
        } else if hi == 0x2 {
            Ok(OpCode::CALL(nnn as usize))
        } else if hi == 0x3 {
            Ok(OpCode::SE(x, kk))
        } else if hi == 0x4 {
            Ok(OpCode::SNE(x, kk))
        } else if hi == 0x6 {
            Ok(OpCode::LDV(x, kk))
        } else if hi == 0x7 {
            Ok(OpCode::ADD(x, kk))
        } else if hi == 0x8 {
            if low == 0x0 {
                Ok(OpCode::LDVV(x, y))
            } else if low == 0x3 {
                Ok(OpCode::XOR(x, y))
            } else if low == 0x4 {
                Ok(OpCode::ADDXY(x, y))
            } else if low == 0x5 {
                Ok(OpCode::SUBXY(x, y))
            } else if low == 0x6 {
                Ok(OpCode::SHR(x))
            } else if low == 0x7 {
                Ok(OpCode::SUBN(x, y))
            } else if low == 0xe {
                Ok(OpCode::SHL(x))
            } else {
                Err(Chip8Error::UnknownOpcode { word: ins })
            }
        } else if hi == 0xa {
            Ok(OpCode::LDI(nnn))
        } else if hi == 0xc {
            Ok(OpCode::RND(x, kk))
        } else if hi == 0xd {
            Ok(OpCode::DRW(x, y, n))
        } else if hi == 0xf {
            if sub == 0x0a {
                Ok(OpCode::LDK(x))
            } else if sub == 0x15 {
                Ok(OpCode::LDDT(x))
            } else if sub == 0x1e {
                Ok(OpCode::ADDI(x))
            } else if sub == 0x29 {
                Ok(OpCode::LDF(x))
            } else if sub == 0x33 {
                Ok(OpCode::LDB(x))
            } else if sub == 0x55 {
                Ok(OpCode::LDIV(x))
            } else if sub == 0x65 {
                Ok(OpCode::LDVI(x))
            } else {
                Err(Chip8Error::UnknownOpcode { word: ins })
            }
        } else {
            Err(Chip8Error::UnknownOpcode { word: ins })
        }
    }

    /// Decodes one instruction word.  A word whose family or sub-selector is
    /// not recognized is reported as [`Chip8Error::UnknownOpcode`], never
    /// silently ignored.
    pub fn from_instruction(ins: u16) -> (r: Result<OpCode, Chip8Error>)
        ensures
            r == OpCode::spec_decode(ins),
            r matches Ok(op) ==> op.wf(),
    {
        proof {
            lemma_decode_wf(ins);
        }
        let hi: u16 = ins >> 12;
        let x: usize = ((ins >> 8) & 0xf) as usize;
        let y: usize = ((ins >> 4) & 0xf) as usize;
        let kk: u8 = (ins & 0xff) as u8;
        let nnn: u16 = ins & 0xfff;
        let n: usize = (ins & 0xf) as usize;
        let sub: u16 = ins & 0xff;
        let low: u16 = ins & 0xf;
        if hi == 0x0 {
            if sub == 0xe0 {
                Ok(OpCode::CLS)
            } else if sub == 0xee {
                Ok(OpCode::RET)
            } else {
                Err(Chip8Error::UnknownOpcode { word: ins })
            }
        } else if hi == 0x1 {
            Ok(OpCode::JP(nnn))
        } else if hi == 0x2 {
            Ok(OpCode::CALL(nnn as usize))
        } else if hi == 0x3 {
            Ok(OpCode::SE(x, kk))
        } else if hi == 0x4 {
            Ok(OpCode::SNE(x, kk))
        } else if hi == 0x6 {
            Ok(OpCode::LDV(x, kk))
        } else if hi == 0x7 {
            Ok(OpCode::ADD(x, kk))
        } else if hi == 0x8 {
            if low == 0x0 {
                Ok(OpCode::LDVV(x, y))
            } else if low == 0x3 {
                Ok(OpCode::XOR(x, y))
            } else if low == 0x4 {
                Ok(OpCode::ADDXY(x, y))
            } else if low == 0x5 {
                Ok(OpCode::SUBXY(x, y))
            } else if low == 0x6 {
                Ok(OpCode::SHR(x))
            } else if low == 0x7 {
                Ok(OpCode::SUBN(x, y))
            } else if low == 0xe {
                Ok(OpCode::SHL(x))
            } else {
                Err(Chip8Error::UnknownOpcode { word: ins })
            }
        } else if hi == 0xa {
            Ok(OpCode::LDI(nnn))
        } else if hi == 0xc {
            Ok(OpCode::RND(x, kk))
        } else if hi == 0xd {
            Ok(OpCode::DRW(x, y, n))
        } else if hi == 0xf {
            if sub == 0x0a {
                Ok(OpCode::LDK(x))
            } else if sub == 0x15 {
                Ok(OpCode::LDDT(x))
            } else if sub == 0x1e {
                Ok(OpCode::ADDI(x))
            } else if sub == 0x29 {
                Ok(OpCode::LDF(x))
            } else if sub == 0x33 {
                Ok(OpCode::LDB(x))
            } else if sub == 0x55 {
                Ok(OpCode::LDIV(x))
            } else if sub == 0x65 {
                Ok(OpCode::LDVI(x))
            } else {
                Err(Chip8Error::UnknownOpcode { word: ins })
            }
        } else {
            Err(Chip8Error::UnknownOpcode { word: ins })
        }
    }
}

/// Whatever the decoder returns has its operands in range.
pub proof fn lemma_decode_wf(ins: u16)
    ensures
        OpCode::spec_decode(ins) matches Ok(op) ==> op.wf(),
{
    assert(((ins >> 8) & 0xf) < 16) by (bit_vector);
    assert(((ins >> 4) & 0xf) < 16) by (bit_vector);
    assert((ins & 0xf) < 16) by (bit_vector);
    assert((ins & 0xfff) <= 0xfff) by (bit_vector);
}

} // verus!
