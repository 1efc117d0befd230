//! The abstract machine state and the transition function that every call to
//! [`crate::Chip8::step`] is proved to implement.

use vstd::prelude::*;

use crate::Chip8Error;
use crate::draw::draw_collision;
use crate::draw::draw_video;
use crate::font::font_set;
use crate::opcodes::OpCode;

verus! {

/// The whole machine state as mathematical values: the view of a
/// [`crate::Chip8`].
#[verifier::ext_equal]
pub ghost struct State {
    /// The sixteen general-purpose 8-bit registers; register 15 doubles as
    /// the carry/borrow/shift-out/collision flag.
    pub v: Seq<u8>,
    /// The 16-bit index register.
    pub i: u16,
    /// The sound timer, decremented by the host.
    pub sound: u8,
    /// The delay timer, decremented by the host.
    pub delay: u8,
    /// The program counter: address of the next instruction to fetch.
    pub pc: u16,
    /// The sixteen return-address slots of the call stack.
    pub stack: Seq<u16>,
    /// The stack pointer: index of the top slot in use; 0 when empty, so
    /// slot 0 itself never holds a return address.
    pub sp: int,
    /// The 4096-byte address space.
    pub mem: Seq<u8>,
    /// The 64x32 framebuffer, row-major: cell `(x, y)` is index `x + 64*y`.
    pub video: Seq<bool>,
    /// Set whenever an instruction changed the framebuffer; cleared by the
    /// host after it consumes a frame.
    pub redraw: bool,
    /// Set while the machine is suspended waiting for a key.
    pub key_waiting: bool,
    /// The register a delivered key value will be written into.
    pub key_reg: int,
}

impl State {
    /// Every component has its fixed size and every pointer is in range.
    pub open spec fn wf(self) -> bool {
        &&& self.v.len() == 16
        &&& self.stack.len() == 16
        &&& self.mem.len() == 4096
        &&& self.video.len() == 2048
        &&& 0 <= self.sp < 16
        &&& 0 <= self.key_reg < 16
    }
}

/// The memory image after a program is installed: the font table in bytes
/// [0, 80), the program from 0x200 on, zeroes elsewhere.
pub open spec fn loaded_mem(rom: Seq<u8>) -> Seq<u8> {
    Seq::new(
        4096,
        |a: int|
            if a < 80 {
                font_set()[a]
            } else if 0x200 <= a < 0x200 + rom.len() {
                rom[a - 0x200]
            } else {
                0u8
            },
    )
}

/// The machine state right after reset and installation of `rom`: every
/// register, timer, stack slot and framebuffer cell cleared, the program
/// counter at 0x200.
pub open spec fn fresh_state(rom: Seq<u8>) -> State {
    State {
        v: Seq::new(16, |j: int| 0u8),
        i: 0,
        sound: 0,
        delay: 0,
        pc: 0x200,
        stack: Seq::new(16, |j: int| 0u16),
        sp: 0,
        mem: loaded_mem(rom),
        video: Seq::new(2048, |p: int| false),
        redraw: false,
        key_waiting: false,
        key_reg: 0,
    }
}

/// The big-endian 16-bit instruction word at address `pc`.
pub open spec fn fetch_word(mem: Seq<u8>, pc: u16) -> u16 {
    ((mem[pc as int] as u16) << 8) | (mem[pc as int + 1] as u16)
}

/// An 8-bit wrapping sum.
pub open spec fn wrap8(a: int) -> u8 {
    (a % 256) as u8
}

/// The effect of one decoded operation on state `pre`, whose program counter
/// still points at the operation's own word.  Returns the next state and
/// `Ok`, or `pre` unchanged and the error.  `rnd` is the byte the random
/// source produced, which only `RND` consumes.
///
/// The program counter is advanced past the instruction first, so jump and
/// call targets are absolute and a skip is one further advance.  Flag writes
/// to register 15 happen in the order the hardware performs them, so an
/// operation naming register 15 as its own operand sees the intermediate
/// values.  Register arithmetic wraps at 8 bits; the index register wraps at
/// 16.  A memory-block operation (`DRW` reading sprite rows, the register
/// transfers, the decimal store) that would reach past address 4095 fails
/// before touching anything.
pub open spec fn spec_apply(pre: State, op: OpCode, rnd: u8) -> (State, Result<(), Chip8Error>) {
    let s = State { pc: (pre.pc + 2) as u16, ..pre };
    match op {
        OpCode::CLS => (State { video: Seq::new(2048, |p: int| false), redraw: true, ..s }, Ok(())),
        OpCode::RET => if pre.sp == 0 {
            (pre, Err(Chip8Error::StackUnderflow))
        } else {
            (State { pc: s.stack[pre.sp], sp: pre.sp - 1, ..s }, Ok(()))
        },
        OpCode::JP(a) => (State { pc: a, ..s }, Ok(())),
        OpCode::LDI(a) => (State { i: a, ..s }, Ok(())),
        OpCode::LDV(x, kk) => (State { v: s.v.update(x as int, kk), ..s }, Ok(())),
        OpCode::DRW(x, y, n) => if n > 0 && pre.i + n > 4096 {
            (pre, Err(Chip8Error::MemOOB { address: (pre.i + n - 1) as usize }))
        } else {
            let x0 = s.v[x as int] as int;
            let y0 = s.v[y as int] as int;
            let collided = draw_collision(s.video, s.mem, pre.i as int, x0, y0, n as int);
            (
                State {
                    video: draw_video(s.video, s.mem, pre.i as int, x0, y0, n as int),
                    v: s.v.update(15, if collided { 1u8 } else { 0u8 }),
                    redraw: true,
                    ..s
                },
                Ok(()),
            )
        },
        OpCode::ADD(x, kk) => (
            State { v: s.v.update(x as int, wrap8(s.v[x as int] + kk)), ..s },
            Ok(()),
        ),
        OpCode::LDIV(x) => if pre.i + x > 4095 {
            (pre, Err(Chip8Error::MemOOB { address: (pre.i + x) as usize }))
        } else {
            let i = pre.i as int;
            (
                State {
                    mem: Seq::new(
                        4096,
                        |a: int| if i <= a <= i + x { s.v[a - i] } else { s.mem[a] },
                    ),
                    ..s
                },
                Ok(()),
            )
        },
        OpCode::LDVI(x) => if pre.i + x > 4095 {
            (pre, Err(Chip8Error::MemOOB { address: (pre.i + x) as usize }))
        } else {
            let i = pre.i as int;
            (
                State {
                    v: Seq::new(16, |j: int| if j <= x { s.mem[i + j] } else { s.v[j] }),
                    ..s
                },
                Ok(()),
            )
        },
        OpCode::ADDI(x) => (
            State { i: ((pre.i + s.v[x as int]) % 0x10000) as u16, ..s },
            Ok(()),
        ),
        OpCode::SE(x, kk) => (
            State { pc: if s.v[x as int] == kk { (s.pc + 2) as u16 } else { s.pc }, ..s },
            Ok(()),
        ),
        OpCode::LDK(x) => (State { key_waiting: true, key_reg: x as int, ..s }, Ok(())),
        OpCode::RND(x, kk) => (State { v: s.v.update(x as int, rnd & kk), ..s }, Ok(())),
        OpCode::LDVV(x, y) => (State { v: s.v.update(x as int, s.v[y as int]), ..s }, Ok(())),
        OpCode::CALL(a) => if pre.sp >= 15 {
            (pre, Err(Chip8Error::StackOverflow))
        } else {
            (
                State {
                    sp: pre.sp + 1,
                    stack: s.stack.update(pre.sp + 1, s.pc),
                    pc: a as u16,
                    ..s
                },
                Ok(()),
            )
        },
        OpCode::LDF(x) => (State { i: (s.v[x as int] * 5) as u16, ..s }, Ok(())),
        OpCode::SNE(x, kk) => (
            State { pc: if s.v[x as int] != kk { (s.pc + 2) as u16 } else { s.pc }, ..s },
            Ok(()),
        ),
        OpCode::LDB(x) => if pre.i + 2 > 4095 {
            (pre, Err(Chip8Error::MemOOB { address: (pre.i + 2) as usize }))
        } else {
            let i = pre.i as int;
            let val = s.v[x as int];
            (
                State {
                    mem: s.mem.update(i, (val / 100) as u8).update(
                        i + 1,
                        ((val / 10) % 10) as u8,
                    ).update(i + 2, (val % 10) as u8),
                    ..s
                },
                Ok(()),
            )
        },
        OpCode::ADDXY(x, y) => {
            let sum = s.v[x as int] + s.v[y as int];
            let v1 = s.v.update(x as int, wrap8(sum));
            (
                State { v: v1.update(15, if sum > 255 { 1u8 } else { 0u8 }), ..s },
                Ok(()),
            )
        },
        OpCode::SUBXY(x, y) => {
            let v1 = s.v.update(15, if s.v[x as int] >= s.v[y as int] { 1u8 } else { 0u8 });
            (
                State { v: v1.update(x as int, wrap8(v1[x as int] - v1[y as int])), ..s },
                Ok(()),
            )
        },
        OpCode::SUBN(x, y) => {
            let v1 = s.v.update(15, if s.v[y as int] >= s.v[x as int] { 1u8 } else { 0u8 });
            (
                State { v: v1.update(x as int, wrap8(v1[y as int] - v1[x as int])), ..s },
                Ok(()),
            )
        },
        OpCode::SHR(x) => {
            let v1 = s.v.update(15, s.v[x as int] & 1);
            (State { v: v1.update(x as int, v1[x as int] >> 1), ..s }, Ok(()))
        },
        OpCode::SHL(x) => {
            let v1 = s.v.update(15, (s.v[x as int] & 0x80) >> 7);
            (State { v: v1.update(x as int, v1[x as int] << 1), ..s }, Ok(()))
        },
        OpCode::XOR(x, y) => (
            State { v: s.v.update(x as int, s.v[x as int] ^ s.v[y as int]), ..s },
            Ok(()),
        ),
        OpCode::LDDT(x) => (State { delay: s.v[x as int], ..s }, Ok(())),
    }
}

/// What one call to [`crate::Chip8::step`] does, given the byte `rnd` that
/// the random source would produce.  While a key is awaited the machine is
/// idle; a fetch outside memory, an unknown word, and a stack fault leave
/// the state unchanged and report the error.
pub open spec fn spec_step(pre: State, rnd: u8) -> (State, Result<(), Chip8Error>) {
    if pre.key_waiting {
        (pre, Ok(()))
    } else if pre.pc > 4094 {
        (pre, Err(Chip8Error::MemOOB { address: pre.pc as usize }))
    } else {
        let word = fetch_word(pre.mem, pre.pc);
        match OpCode::spec_decode(word) {
            Ok(op) => spec_apply(pre, op, rnd),
            Err(e) => (pre, Err(e)),
        }
    }
}

} // verus!
