//! The library's stated laws: properties of the transition function that
//! hold for every machine state, proved once and for all.

use vstd::prelude::*;

use crate::Chip8Error;
use crate::draw::draw_collision;
use crate::draw::draw_video;
use crate::draw::sprite_on;
use crate::font::font_set;
use crate::opcodes::OpCode;
use crate::state::State;
use crate::state::fetch_word;
use crate::state::fresh_state;
use crate::state::spec_apply;
use crate::state::spec_step;
use crate::state::wrap8;

verus! {

/// After a load of any program that fits: the machine is well-formed, the
/// program counter is at 0x200, bytes [0, 80) hold the font table exactly,
/// untouched by the program's bytes, and the program itself sits at
/// [0x200, 0x200 + len).
pub proof fn lemma_load_layout(rom: Seq<u8>)
    requires
        rom.len() <= 3584,
    ensures
        fresh_state(rom).wf(),
        fresh_state(rom).pc == 0x200,
        forall|a: int| 0 <= a < 80 ==> fresh_state(rom).mem[a] == font_set()[a],
        forall|a: int| 0 <= a < rom.len() ==> fresh_state(rom).mem[0x200 + a] == rom[a],
{
}

/// `ADD Vx,Vy` leaves in register 15 exactly the carry of the unsigned sum:
/// 1 when Vx + Vy exceeds 255, else 0 — for every pair of registers, since
/// the flag write lands last.  When x does not name the flag register
/// itself, Vx takes the wrapped sum.
pub proof fn lemma_add_carry(s: State, x: usize, y: usize, rnd: u8)
    requires
        s.wf(),
        x < 16,
        y < 16,
    ensures
        spec_apply(s, OpCode::ADDXY(x, y), rnd).1 == Ok::<(), Chip8Error>(()),
        spec_apply(s, OpCode::ADDXY(x, y), rnd).0.v[15] == (if s.v[x as int] + s.v[y as int]
            > 255 {
            1u8
        } else {
            0u8
        }),
        x != 15 ==> spec_apply(s, OpCode::ADDXY(x, y), rnd).0.v[x as int] == wrap8(
            s.v[x as int] + s.v[y as int],
        ),
{
}

/// `SUB Vx,Vy` sets register 15 to 1 exactly when Vx >= Vy (the not-borrow
/// flag), and leaves in Vx the 8-bit wrapped difference Vx - Vy.  Stated
/// for operand registers other than 15 itself, which the flag write would
/// alias.
pub proof fn lemma_sub_borrow(s: State, x: usize, y: usize, rnd: u8)
    requires
        s.wf(),
        x < 16,
        y < 16,
        x != 15,
        y != 15,
    ensures
        spec_apply(s, OpCode::SUBXY(x, y), rnd).1 == Ok::<(), Chip8Error>(()),
        spec_apply(s, OpCode::SUBXY(x, y), rnd).0.v[15] == (if s.v[x as int] >= s.v[y as int] {
            1u8
        } else {
            0u8
        }),
        spec_apply(s, OpCode::SUBXY(x, y), rnd).0.v[x as int] == wrap8(
            s.v[x as int] - s.v[y as int],
        ),
{
}

/// `LD F,Vx` points the index register at the glyph sprite for digit Vx,
/// and the five bytes there are exactly that glyph — for every digit 0
/// through 15, whenever the font region is intact (as it is after any
/// load).
pub proof fn lemma_font_sprite(s: State, x: usize, rnd: u8)
    requires
        s.wf(),
        x < 16,
        s.v[x as int] <= 15,
        forall|a: int| 0 <= a < 80 ==> s.mem[a] == font_set()[a],
    ensures
        spec_apply(s, OpCode::LDF(x), rnd).1 == Ok::<(), Chip8Error>(()),
        spec_apply(s, OpCode::LDF(x), rnd).0.i == 5 * s.v[x as int],
        forall|a: int|
            5 * s.v[x as int] <= a < 5 * s.v[x as int] + 5 ==> #[trigger] spec_apply(
                s,
                OpCode::LDF(x),
                rnd,
            ).0.mem[a] == font_set()[a],
{
}

/// XOR idempotence of the blit: drawing the same sprite twice at the same
/// anchor restores the framebuffer exactly, and the second draw collides
/// precisely when the first draw turned some cell on — every bit the first
/// draw set is found set again.
pub proof fn lemma_draw_twice(video: Seq<bool>, mem: Seq<u8>, i: int, x0: int, y0: int, n: int)
    requires
        video.len() == 2048,
    ensures
        draw_video(draw_video(video, mem, i, x0, y0, n), mem, i, x0, y0, n) == video,
        draw_collision(draw_video(video, mem, i, x0, y0, n), mem, i, x0, y0, n) == (exists|p: int|
            0 <= p < 2048 && #[trigger] sprite_on(mem, i, x0, y0, n, p) && !video[p]),
{
    let v1 = draw_video(video, mem, i, x0, y0, n);
    assert(draw_video(v1, mem, i, x0, y0, n) =~= video);
    if draw_collision(v1, mem, i, x0, y0, n) {
        let p = choose|p: int|
            0 <= p < v1.len() && v1[p] && #[trigger] sprite_on(mem, i, x0, y0, n, p);
        assert(sprite_on(mem, i, x0, y0, n, p) && !video[p]);
    }
    if exists|p: int| 0 <= p < 2048 && #[trigger] sprite_on(mem, i, x0, y0, n, p) && !video[p] {
        let p = choose|p: int| 0 <= p < 2048 && #[trigger] sprite_on(mem, i, x0, y0, n, p)
            && !video[p];
        assert(0 <= p < v1.len() && v1[p] && sprite_on(mem, i, x0, y0, n, p));
        assert(draw_collision(v1, mem, i, x0, y0, n));
    }
}

/// The two-draw round trip at machine level: stepping the same `DRW`
/// operation twice from any state leaves the framebuffer as it began (for
/// coordinate registers other than 15, which the collision flag would
/// alias between the draws).
pub proof fn lemma_draw_twice_machine(s: State, x: usize, y: usize, n: usize, rnd1: u8, rnd2: u8)
    requires
        s.wf(),
        x < 16,
        y < 16,
        n < 16,
        x != 15,
        y != 15,
        n > 0 ==> s.i + n <= 4096,
    ensures
        spec_apply(
            spec_apply(s, OpCode::DRW(x, y, n), rnd1).0,
            OpCode::DRW(x, y, n),
            rnd2,
        ).0.video == s.video,
        spec_apply(
            spec_apply(s, OpCode::DRW(x, y, n), rnd1).0,
            OpCode::DRW(x, y, n),
            rnd2,
        ).0.v[15] == (if exists|p: int|
            0 <= p < 2048 && #[trigger] sprite_on(
                s.mem,
                s.i as int,
                s.v[x as int] as int,
                s.v[y as int] as int,
                n as int,
                p,
            ) && !s.video[p] {
            1u8
        } else {
            0u8
        }),
{
    let s1 = spec_apply(s, OpCode::DRW(x, y, n), rnd1).0;
    assert(s1.mem == s.mem);
    assert(s1.i == s.i);
    assert(s1.v[x as int] == s.v[x as int]);
    assert(s1.v[y as int] == s.v[y as int]);
    assert(s1.video == draw_video(s.video, s.mem, s.i as int, s.v[x as int] as int,
        s.v[y as int] as int, n as int));
    lemma_draw_twice(s.video, s.mem, s.i as int, s.v[x as int] as int, s.v[y as int] as int,
        n as int);
    assert(spec_apply(s1, OpCode::DRW(x, y, n), rnd2).0.video =~= s.video);
}

/// `CALL addr` then `RET`: after the pair, the program counter is back at
/// the instruction immediately after the `CALL`, and the stack pointer
/// where it began.
pub proof fn lemma_call_ret(s: State, a: usize, rnd1: u8, rnd2: u8)
    requires
        s.wf(),
        !s.key_waiting,
        s.pc <= 4094,
        OpCode::spec_decode(fetch_word(s.mem, s.pc)) == Ok::<OpCode, Chip8Error>(
            OpCode::CALL(a),
        ),
        s.sp < 15,
        a <= 4094,
        OpCode::spec_decode(fetch_word(s.mem, a as u16)) == Ok::<OpCode, Chip8Error>(OpCode::RET),
    ensures
        spec_step(s, rnd1).1 == Ok::<(), Chip8Error>(()),
        spec_step(spec_step(s, rnd1).0, rnd2).1 == Ok::<(), Chip8Error>(()),
        spec_step(spec_step(s, rnd1).0, rnd2).0.pc == s.pc + 2,
        spec_step(spec_step(s, rnd1).0, rnd2).0.sp == s.sp,
{
    let s1 = spec_step(s, rnd1).0;
    assert(s1.pc == a as u16);
    assert(s1.mem == s.mem);
    assert(s1.stack[s1.sp] == (s.pc + 2) as u16);
}

/// `LD Vx,K` latches the key wait: the machine records the target register,
/// and every further step is a no-op until a key is delivered (the delivery
/// itself, and the register write it performs, is the contract of
/// [`crate::Chip8::key`]).
pub proof fn lemma_key_wait(s: State, x: usize, rnd1: u8, rnd2: u8)
    requires
        s.wf(),
        x < 16,
    ensures
        spec_apply(s, OpCode::LDK(x), rnd1).1 == Ok::<(), Chip8Error>(()),
        spec_apply(s, OpCode::LDK(x), rnd1).0.key_waiting,
        spec_apply(s, OpCode::LDK(x), rnd1).0.key_reg == x,
        spec_step(spec_apply(s, OpCode::LDK(x), rnd1).0, rnd2) == (
            spec_apply(s, OpCode::LDK(x), rnd1).0,
            Ok::<(), Chip8Error>(()),
        ),
{
}

} // verus!
