//! The execution engine: one instruction per call, proved against
//! [`spec_step`].

use vstd::prelude::*;

use crate::Chip8;
use crate::Chip8Error;
use crate::blank_video;
use crate::opcodes::OpCode;
use crate::state::State;
use crate::state::fetch_word;
use crate::state::spec_apply;
use crate::state::spec_step;

verus! {

/// Relies on rand::random: a fresh sample of a uniformly distributed value.
/// Nothing is promised of which value comes back; the caller must be correct
/// for every one.
pub assume_specification<T>[ rand::random::<T> ]() -> (r: T)
    where
        rand::distributions::Standard: rand::distributions::Distribution<T>,
;

impl Chip8 {
    /// Executes zero or one instruction: idle while a key is awaited,
    /// otherwise fetch at the program counter, advance it past the word, and
    /// apply the decoded operation.  On any error — fetch outside memory,
    /// unknown word, stack fault, memory-block operation past the end — the
    /// machine is left exactly as it was.
    ///
    /// The whole effect is [`spec_step`], for some byte `rnd` of the random
    /// source (only `RND` reads it).
    #[verifier::rlimit(100)]
    pub fn step(&mut self) -> (res: Result<(), Chip8Error>)
        requires
            old(self).wf(),
        ensures
            final(self).wf(),
            exists|rnd: u8| (final(self)@, res) == #[trigger] spec_step(old(self)@, rnd),
            res matches Err(e) ==> final(self)@ == old(self)@,
            old(self)@.key_waiting ==> res == Ok::<(), Chip8Error>(()) && final(self)@ == old(
                self,
            )@,
    {
        let ghost pre = self@;
        if self.key_waiting {
            proof {
                assert((self@, Ok::<(), Chip8Error>(())) == spec_step(pre, 0u8));
            }
            return Ok(());
        }
        let pc0: u16 = self.pc;
        if pc0 > 4094 {
            let res = Err(Chip8Error::MemOOB { address: pc0 as usize });
            proof {
                assert((self@, res) == spec_step(pre, 0u8));
            }
            return res;
        }
        let hi: u8 = self.mem[pc0 as usize];
        let lo: u8 = self.mem[pc0 as usize + 1];
        let word: u16 = ((hi as u16) << 8) | (lo as u16);
        proof {
            assert(word == fetch_word(pre.mem, pre.pc));
        }
        let op = match OpCode::from_instruction(word) {
            Ok(op) => op,
            Err(e) => {
                let res = Err(e);
                proof {
                    assert((self@, res) == spec_step(pre, 0u8));
                }
                return res;
            },
        };
        self.pc = pc0 + 2;
        let ghost mut grnd: u8 = 0;
        match op {
            OpCode::CLS => {
                self.video = blank_video();
                self.redraw = true;
            },
            OpCode::RET => {
                if self.sp == 0 {
                    self.pc = pc0;
                    let res = Err(Chip8Error::StackUnderflow);
                    proof {
                        assert(self@ =~~= pre);
                        assert((self@, res) == spec_step(pre, grnd));
                    }
                    return res;
                }
                self.pc = self.stack[self.sp];
                self.sp = self.sp - 1;
            },
            OpCode::JP(a) => {
                self.pc = a;
            },
            OpCode::LDI(a) => {
                self.reg_i = a;
            },
            OpCode::LDV(x, kk) => {
                self.reg_v.set(x, kk);
            },
            OpCode::DRW(x, y, n) => {
                let i: usize = self.reg_i as usize;
                if n > 0 && i + n > 4096 {
                    self.pc = pc0;
                    let res = Err(Chip8Error::MemOOB { address: i + n - 1 });
                    proof {
                        assert(self@ =~~= pre);
                        assert((self@, res) == spec_step(pre, grnd));
                    }
                    return res;
                }
                self.draw_sprite(x, y, n);
            },
            OpCode::ADD(x, kk) => {
                let vx: u8 = self.reg_v[x];
                self.reg_v.set(x, vx.wrapping_add(kk));
            },
            OpCode::LDIV(x) => {
                let i: usize = self.reg_i as usize;
                if i + x > 4095 {
                    self.pc = pc0;
                    let res = Err(Chip8Error::MemOOB { address: i + x });
                    proof {
                        assert(self@ =~~= pre);
                        assert((self@, res) == spec_step(pre, grnd));
                    }
                    return res;
                }
                self.store_regs(x);
            },
            OpCode::LDVI(x) => {
                let i: usize = self.reg_i as usize;
                if i + x > 4095 {
                    self.pc = pc0;
                    let res = Err(Chip8Error::MemOOB { address: i + x });
                    proof {
                        assert(self@ =~~= pre);
                        assert((self@, res) == spec_step(pre, grnd));
                    }
                    return res;
                }
                self.load_regs(x);
            },
            OpCode::ADDI(x) => {
                let vx: u8 = self.reg_v[x];
                self.reg_i = self.reg_i.wrapping_add(vx as u16);
            },
            OpCode::SE(x, kk) => {
                if self.reg_v[x] == kk {
                    self.pc = self.pc + 2;
                }
            },
            OpCode::LDK(x) => {
                self.key_waiting = true;
                self.key_reg = x;
            },
            OpCode::RND(x, kk) => {
                let b: u8 = rand::random::<u8>();
                self.reg_v.set(x, b & kk);
                proof {
                    grnd = b;
                }
            },
            OpCode::LDVV(x, y) => {
                let vy: u8 = self.reg_v[y];
                self.reg_v.set(x, vy);
            },
            OpCode::CALL(a) => {
                if self.sp >= 15 {
                    self.pc = pc0;
                    let res = Err(Chip8Error::StackOverflow);
                    proof {
                        assert(self@ =~~= pre);
                        assert((self@, res) == spec_step(pre, grnd));
                    }
                    return res;
                }
                self.sp = self.sp + 1;
                let ret: u16 = self.pc;
                self.stack.set(self.sp, ret);
                self.pc = a as u16;
            },
            OpCode::LDF(x) => {
                let vx: u8 = self.reg_v[x];
                self.reg_i = (vx as u16) * 5;
            },
            OpCode::SNE(x, kk) => {
                if self.reg_v[x] != kk {
                    self.pc = self.pc + 2;
                }
            },
            OpCode::LDB(x) => {
                let i: usize = self.reg_i as usize;
                if i + 2 > 4095 {
                    self.pc = pc0;
                    let res = Err(Chip8Error::MemOOB { address: i + 2 });
                    proof {
                        assert(self@ =~~= pre);
                        assert((self@, res) == spec_step(pre, grnd));
                    }
                    return res;
                }
                let val: u8 = self.reg_v[x];
                self.mem.set(i, val / 100);
                self.mem.set(i + 1, (val / 10) % 10);
                self.mem.set(i + 2, val % 10);
            },
            OpCode::ADDXY(x, y) => {
                let vx: u8 = self.reg_v[x];
                let vy: u8 = self.reg_v[y];
                let sum: u16 = vx as u16 + vy as u16;
                self.reg_v.set(x, (sum % 256) as u8);
                self.reg_v.set(15, if sum > 255 { 1 } else { 0 });
            },
            OpCode::SUBXY(x, y) => {
                let flag: u8 = if self.reg_v[x] >= self.reg_v[y] { 1 } else { 0 };
                self.reg_v.set(15, flag);
                let a: u8 = self.reg_v[x];
                let b: u8 = self.reg_v[y];
                self.reg_v.set(x, a.wrapping_sub(b));
            },
            OpCode::SUBN(x, y) => {
                let flag: u8 = if self.reg_v[y] >= self.reg_v[x] { 1 } else { 0 };
                self.reg_v.set(15, flag);
                let a: u8 = self.reg_v[x];
                let b: u8 = self.reg_v[y];
                self.reg_v.set(x, b.wrapping_sub(a));
            },
            OpCode::SHR(x) => {
                let flag: u8 = self.reg_v[x] & 1;
                self.reg_v.set(15, flag);
                let a: u8 = self.reg_v[x];
                self.reg_v.set(x, a >> 1u8);
            },
            OpCode::SHL(x) => {
                let flag: u8 = (self.reg_v[x] & 0x80) >> 7u8;
                self.reg_v.set(15, flag);
                let a: u8 = self.reg_v[x];
                self.reg_v.set(x, a << 1u8);
            },
            OpCode::XOR(x, y) => {
                let vx: u8 = self.reg_v[x];
                let vy: u8 = self.reg_v[y];
                self.reg_v.set(x, vx ^ vy);
            },
            OpCode::LDDT(x) => {
                let vx: u8 = self.reg_v[x];
                self.reg_timer_delay = vx;
            },
        }
        proof {
            assert(self@ =~~= spec_apply(pre, op, grnd).0);
            assert(spec_apply(pre, op, grnd).1 == Ok::<(), Chip8Error>(()));
            assert((self@, Ok::<(), Chip8Error>(())) == spec_step(pre, grnd));
        }
        Ok(())
    }

    /// Register-block store: copies registers 0 through `x` to memory
    /// starting at the index register.
    fn store_regs(&mut self, x: usize)
        requires
            old(self).wf(),
            x < 16,
            old(self)@.i + x <= 4095,
        ensures
            final(self).wf(),
            final(self)@ == (State {
                mem: Seq::new(
                    4096,
                    |a: int|
                        if old(self)@.i <= a <= old(self)@.i + x {
                            old(self)@.v[a - old(self)@.i]
                        } else {
                            old(self)@.mem[a]
                        },
                ),
                ..old(self)@
            }),
    {
        let ghost pre = self@;
        let i: usize = self.reg_i as usize;
        let mut k: usize = 0;
        while k <= x
            invariant
                pre.wf(),
                k <= x + 1,
                x < 16,
                i == pre.i,
                i + x <= 4095,
                self@ == (State { mem: self@.mem, ..pre }),
                self@.mem.len() == 4096,
                forall|a: int| i <= a < i + k ==> self@.mem[a] == pre.v[a - i],
                forall|a: int| 0 <= a < 4096 && !(i <= a < i + k) ==> self@.mem[a] == pre.mem[a],
            decreases x + 1 - k,
        {
            let vk: u8 = self.reg_v[k];
            self.mem.set(i + k, vk);
            k = k + 1;
        }
        proof {
            assert(self@.mem =~= Seq::new(
                4096,
                |a: int| if pre.i <= a <= pre.i + x { pre.v[a - pre.i] } else { pre.mem[a] },
            ));
            assert(self@ =~~= (State {
                mem: Seq::new(
                    4096,
                    |a: int| if pre.i <= a <= pre.i + x { pre.v[a - pre.i] } else { pre.mem[a] },
                ),
                ..pre
            }));
        }
    }

    /// Register-block load: copies memory starting at the index register
    /// into registers 0 through `x`.
    fn load_regs(&mut self, x: usize)
        requires
            old(self).wf(),
            x < 16,
            old(self)@.i + x <= 4095,
        ensures
            final(self).wf(),
            final(self)@ == (State {
                v: Seq::new(
                    16,
                    |j: int|
                        if j <= x {
                            old(self)@.mem[old(self)@.i + j]
                        } else {
                            old(self)@.v[j]
                        },
                ),
                ..old(self)@
            }),
    {
        let ghost pre = self@;
        let i: usize = self.reg_i as usize;
        let mut k: usize = 0;
        while k <= x
            invariant
                pre.wf(),
                k <= x + 1,
                x < 16,
                i == pre.i,
                i + x <= 4095,
                self@ == (State { v: self@.v, ..pre }),
                self@.v.len() == 16,
                forall|j: int| 0 <= j < k ==> self@.v[j] == pre.mem[i + j],
                forall|j: int| k <= j < 16 ==> self@.v[j] == pre.v[j],
            decreases x + 1 - k,
        {
            let mk: u8 = self.mem[i + k];
            self.reg_v.set(k, mk);
            k = k + 1;
        }
        proof {
            assert(self@.v =~= Seq::new(
                16,
                |j: int| if j <= x { pre.mem[pre.i + j] } else { pre.v[j] },
            ));
            assert(self@ =~~= (State {
                v: Seq::new(16, |j: int| if j <= x { pre.mem[pre.i + j] } else { pre.v[j] }),
                ..pre
            }));
        }
    }
}

} // verus!
