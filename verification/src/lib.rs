//! A cycle-stepped interpreter for a fixed 16-bit instruction set over a flat
//! 4096-byte memory image, sixteen 8-bit registers, a 16-slot call stack and a
//! 64x32 monochrome framebuffer.
//!
//! The host constructs a [`Chip8`], installs a program with
//! [`Chip8::load_rom_from_bytes`], then repeatedly calls [`Chip8::step`],
//! delivering key events through [`Chip8::key`] and reading the framebuffer
//! back through [`Chip8::video_frame`] whenever the `redraw` flag is set.
//!
//! Every instruction's effect is specified by the transition function
//! [`state::spec_step`] over the abstract machine state [`state::State`];
//! `step` is proved to implement it.

use vstd::prelude::*;

pub mod draw;
pub mod engine;
pub mod font;
pub mod laws;
pub mod mem;
pub mod opcodes;
pub mod state;

pub use mem::Mem;
pub use opcodes::OpCode;
pub use state::State;

use crate::mem::into_mem;
use crate::mem::new_mem;
use crate::state::fresh_state;

verus! {

/// One of the sixteen keys of the hexadecimal keypad.
#[derive(Debug, Copy, Clone)]
pub enum Key {
    Key0,
    Key1,
    Key2,
    Key3,
    Key4,
    Key5,
    Key6,
    Key7,
    Key8,
    Key9,
    KeyA,
    KeyB,
    KeyC,
    KeyD,
    KeyE,
    KeyF,
}

impl Key {
    /// The numeric value of the key, `0x0` through `0xF`.
    pub open spec fn spec_code(self) -> u8 {
        match self {
            Key::Key0 => 0x0,
            Key::Key1 => 0x1,
            Key::Key2 => 0x2,
            Key::Key3 => 0x3,
            Key::Key4 => 0x4,
            Key::Key5 => 0x5,
            Key::Key6 => 0x6,
            Key::Key7 => 0x7,
            Key::Key8 => 0x8,
            Key::Key9 => 0x9,
            Key::KeyA => 0xa,
            Key::KeyB => 0xb,
            Key::KeyC => 0xc,
            Key::KeyD => 0xd,
            Key::KeyE => 0xe,
            Key::KeyF => 0xf,
        }
    }

    /// The numeric value of the key, `0x0` through `0xF`.
    pub fn code(&self) -> (r: u8)
        ensures
            r == self.spec_code(),
    {
        match self {
            Key::Key0 => 0x0,
            Key::Key1 => 0x1,
            Key::Key2 => 0x2,
            Key::Key3 => 0x3,
            Key::Key4 => 0x4,
            Key::Key5 => 0x5,
            Key::Key6 => 0x6,
            Key::Key7 => 0x7,
            Key::Key8 => 0x8,
            Key::Key9 => 0x9,
            Key::KeyA => 0xa,
            Key::KeyB => 0xb,
            Key::KeyC => 0xc,
            Key::KeyD => 0xd,
            Key::KeyE => 0xe,
            Key::KeyF => 0xf,
        }
    }
}

/// Everything that can go wrong while loading or running a program.
#[derive(Debug, Copy, Clone, PartialEq, Eq, Structural)]
pub enum Chip8Error {
    /// The program does not fit in the 3584 bytes above `0x200`; carries the
    /// offending length.  The machine is left untouched.
    ROMTooLarge { size: usize },
    /// An instruction fetch or a memory-block operation reached past the end
    /// of the 4096-byte address space; carries the offending address.
    MemOOB { address: usize },
    /// The 16-bit word at the program counter decodes to no instruction.
    UnknownOpcode { word: u16 },
    /// A call was made with all sixteen stack slots in use.
    StackOverflow,
    /// A return was executed with the call stack empty.
    StackUnderflow,
}

/// The machine: registers, timers, call stack, memory, framebuffer and the
/// key-wait latch, mutated only by [`Chip8::step`], [`Chip8::key`] and the
/// loading calls.
pub struct Chip8 {
    pub(crate) reg_v: Vec<u8>,
    pub(crate) reg_i: u16,
    pub(crate) reg_timer_audio: u8,
    pub(crate) reg_timer_delay: u8,
    pub(crate) pc: u16,
    pub(crate) stack: Vec<u16>,
    pub(crate) sp: usize,
    pub(crate) mem: Vec<u8>,
    pub(crate) video: Vec<bool>,
    /// Set whenever an instruction changed the framebuffer; the host clears
    /// it after consuming a frame.
    pub redraw: bool,
    pub(crate) key_waiting: bool,
    pub(crate) key_reg: usize,
}

impl View for Chip8 {
    type V = State;

    /// The machine as mathematical values.
    open(crate) spec fn view(&self) -> State {
        State {
            v: self.reg_v@,
            i: self.reg_i,
            sound: self.reg_timer_audio,
            delay: self.reg_timer_delay,
            pc: self.pc,
            stack: self.stack@,
            sp: self.sp as int,
            mem: self.mem@,
            video: self.video@,
            redraw: self.redraw,
            key_waiting: self.key_waiting,
            key_reg: self.key_reg as int,
        }
    }
}

impl Chip8 {
    /// The components have their fixed sizes and the pointers are in range.
    pub open spec fn wf(self) -> bool {
        self@.wf()
    }

    /// A machine with no program: reset state, font table seeded, nothing
    /// above 0x200.
    pub fn new() -> (r: Chip8)
        ensures
            r.wf(),
            r@ == fresh_state(Seq::<u8>::empty()),
    {
        let r = Chip8 {
            reg_v: zero_bytes(16),
            reg_i: 0,
            reg_timer_audio: 0,
            reg_timer_delay: 0,
            pc: 0x200,
            stack: zero_words(16),
            sp: 0,
            mem: new_mem(),
            video: blank_video(),
            redraw: false,
            key_waiting: false,
            key_reg: 0,
        };
        proof {
            assert(r@ =~~= fresh_state(Seq::<u8>::empty()));
        }
        r
    }

    /// Clears every register, timer, stack slot and framebuffer cell,
    /// reseeds the font table, and puts the program counter back at 0x200.
    pub fn reset(&mut self)
        ensures
            final(self).wf(),
            final(self)@ == fresh_state(Seq::<u8>::empty()),
    {
        self.reg_v = zero_bytes(16);
        self.reg_i = 0;
        self.reg_timer_audio = 0;
        self.reg_timer_delay = 0;
        self.pc = 0x200;
        self.stack = zero_words(16);
        self.sp = 0;
        self.mem = new_mem();
        self.video = blank_video();
        self.redraw = false;
        self.key_waiting = false;
        self.key_reg = 0;
        proof {
            assert(self@ =~~= fresh_state(Seq::<u8>::empty()));
        }
    }

    /// Resets the machine and installs `bytes` from address 0x200 on.
    /// A program of more than 3584 bytes is rejected with
    /// [`Chip8Error::ROMTooLarge`] and the machine is left untouched.
    pub fn load_rom_from_bytes(&mut self, bytes: &[u8]) -> (res: Result<(), Chip8Error>)
        requires
            old(self).wf(),
        ensures
            final(self).wf(),
            bytes@.len() > 3584 ==> res == Err::<(), Chip8Error>(
                (Chip8Error::ROMTooLarge { size: bytes@.len() as usize }),
            ) && final(self)@ == old(self)@,
            bytes@.len() <= 3584 ==> res == Ok::<(), Chip8Error>(()) && final(self)@
                == fresh_state(bytes@),
    {
        let m = match into_mem(bytes) {
            Ok(m) => m,
            Err(e) => {
                return Err(e);
            },
        };
        self.reset();
        self.mem = m;
        proof {
            assert(self@ =~~= fresh_state(bytes@));
        }
        Ok(())
    }

    /// The framebuffer, row-major: cell `(x, y)` is index `x + 64*y`.
    pub fn video_frame(&self) -> (r: &[bool])
        ensures
            r@ == self@.video,
    {
        self.video.as_slice()
    }

    /// Delivers a key press.  If the machine is waiting for one, the key's
    /// value is written into the pending register and execution resumes;
    /// otherwise the press is ignored.
    pub fn key(&mut self, key: &Key)
        requires
            old(self).wf(),
        ensures
            final(self).wf(),
            old(self)@.key_waiting ==> final(self)@ == (State {
                v: old(self)@.v.update(old(self)@.key_reg, key.spec_code()),
                key_waiting: false,
                ..old(self)@
            }),
            !old(self)@.key_waiting ==> final(self)@ == old(self)@,
    {
        if self.key_waiting {
            let code = key.code();
            self.reg_v.set(self.key_reg, code);
            self.key_waiting = false;
        }
    }

    /// The delay timer's value.
    pub fn delay_timer(&self) -> (r: u8)
        ensures
            r == self@.delay,
    {
        self.reg_timer_delay
    }

    /// Sets the delay timer; the host decrements it at its own cadence.
    pub fn set_delay_timer(&mut self, v: u8)
        ensures
            final(self)@ == (State { delay: v, ..old(self)@ }),
    {
        self.reg_timer_delay = v;
    }

    /// The sound timer's value.
    pub fn sound_timer(&self) -> (r: u8)
        ensures
            r == self@.sound,
    {
        self.reg_timer_audio
    }

    /// Sets the sound timer; the host decrements it at its own cadence.
    pub fn set_sound_timer(&mut self, v: u8)
        ensures
            final(self)@ == (State { sound: v, ..old(self)@ }),
    {
        self.reg_timer_audio = v;
    }

    /// The program counter.
    pub fn pc(&self) -> (r: u16)
        ensures
            r == self@.pc,
    {
        self.pc
    }

    /// The index register.
    pub fn index_register(&self) -> (r: u16)
        ensures
            r == self@.i,
    {
        self.reg_i
    }

    /// General-purpose register `x`.
    pub fn register(&self, x: u8) -> (r: u8)
        requires
            self.wf(),
            x < 16,
        ensures
            r == self@.v[x as int],
    {
        self.reg_v[x as usize]
    }

    /// The memory byte at `addr`.
    pub fn read(&self, addr: u16) -> (r: u8)
        requires
            self.wf(),
            addr < 4096,
        ensures
            r == self@.mem[addr as int],
    {
        self.mem[addr as usize]
    }
}

/// `n` zero bytes.
fn zero_bytes(n: usize) -> (r: Vec<u8>)
    ensures
        r@ == Seq::new(n as nat, |j: int| 0u8),
{
    let mut r: Vec<u8> = Vec::new();
    let mut k: usize = 0;
    while k < n
        invariant
            k <= n,
            r@ == Seq::new(k as nat, |j: int| 0u8),
        decreases n - k,
    {
        r.push(0);
        k = k + 1;
        proof {
            assert(r@ =~= Seq::new(k as nat, |j: int| 0u8));
        }
    }
    r
}

/// `n` zero 16-bit words.
fn zero_words(n: usize) -> (r: Vec<u16>)
    ensures
        r@ == Seq::new(n as nat, |j: int| 0u16),
{
    let mut r: Vec<u16> = Vec::new();
    let mut k: usize = 0;
    while k < n
        invariant
            k <= n,
            r@ == Seq::new(k as nat, |j: int| 0u16),
        decreases n - k,
    {
        r.push(0);
        k = k + 1;
        proof {
            assert(r@ =~= Seq::new(k as nat, |j: int| 0u16));
        }
    }
    r
}

/// A cleared 64x32 framebuffer.
pub(crate) fn blank_video() -> (r: Vec<bool>)
    ensures
        r@ == Seq::new(2048, |p: int| false),
{
    let mut r: Vec<bool> = Vec::new();
    let mut k: usize = 0;
    while k < 2048
        invariant
            k <= 2048,
            r@ == Seq::new(k as nat, |p: int| false),
        decreases 2048 - k,
    {
        r.push(false);
        k = k + 1;
        proof {
            assert(r@ =~= Seq::new(k as nat, |p: int| false));
        }
    }
    r
}

} // verus!
