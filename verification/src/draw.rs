//! The sprite blit: the mathematical model of `DRW` and the verified
//! implementation of it.
//!
//! A sprite is `n` rows of 8 pixels, one byte per row, most significant bit
//! leftmost.  Row `r`, bit `b` of the sprite lands on column
//! `(x0 + b) mod 64` of row `y0 + r`: the x-coordinate wraps around the
//! screen, the y-coordinate does not — rows that would fall below row 31 are
//! clipped away.  Each sprite pixel that is 1 is XORed into the framebuffer
//! cell under it; the draw collides when any such XOR turns a set cell off.

use vstd::prelude::*;

use vstd::arithmetic::div_mod::lemma_fundamental_div_mod;
use vstd::arithmetic::div_mod::lemma_fundamental_div_mod_converse;

use crate::Chip8;
use crate::state::State;

verus! {

/// Bit `b` of a sprite row byte, counting the most significant bit as bit 0.
pub open spec fn row_bit(line: u8, b: int) -> bool {
    (line >> ((7 - b) as u8)) & 1 == 1
}

/// Sprite cell (row `r`, bit `b`) of a sprite anchored at `(x0, y0)` lands on
/// framebuffer index `p`.
pub open spec fn hits(x0: int, y0: int, r: int, b: int, p: int) -> bool {
    p == (x0 + b) % 64 + 64 * (y0 + r)
}

/// Sprite cell (row `r`, bit `b`) comes before the cell (`r_lim`, `b_lim`)
/// in drawing order (row by row, leftmost bit first).
pub open spec fn before(r: int, b: int, r_lim: int, b_lim: int) -> bool {
    r < r_lim || (r == r_lim && b < b_lim)
}

/// The sprite cells drawn before cell (`r_lim`, `b_lim`) put a 1 on
/// framebuffer index `p`.  The sprite has `n` rows and is read from `mem`
/// starting at address `i`.
pub open spec fn sprite_on_upto(
    mem: Seq<u8>,
    i: int,
    x0: int,
    y0: int,
    n: int,
    r_lim: int,
    b_lim: int,
    p: int,
) -> bool {
    exists|r: int, b: int|
        0 <= r < n && 0 <= b < 8 && before(r, b, r_lim, b_lim) && #[trigger] hits(x0, y0, r, b, p)
            && row_bit(mem[i + r], b)
}

/// The whole sprite puts a 1 on framebuffer index `p`.
pub open spec fn sprite_on(mem: Seq<u8>, i: int, x0: int, y0: int, n: int, p: int) -> bool {
    sprite_on_upto(mem, i, x0, y0, n, n, 0, p)
}

/// The framebuffer after the sprite is XORed in: cell by cell, the old value
/// XOR the sprite's contribution.  Cells the sprite does not touch keep
/// their value; rows past the bottom edge fall outside every index and are
/// thereby clipped.
pub open spec fn draw_video(
    video: Seq<bool>,
    mem: Seq<u8>,
    i: int,
    x0: int,
    y0: int,
    n: int,
) -> Seq<bool> {
    Seq::new(video.len(), |p: int| video[p] ^ sprite_on(mem, i, x0, y0, n, p))
}

/// The draw collides: some sprite pixel lands on a cell that is already set.
pub open spec fn draw_collision(
    video: Seq<bool>,
    mem: Seq<u8>,
    i: int,
    x0: int,
    y0: int,
    n: int,
) -> bool {
    exists|p: int|
        0 <= p < video.len() && video[p] && #[trigger] sprite_on(mem, i, x0, y0, n, p)
}

/// Two distinct sprite cells never land on the same framebuffer index:
/// distinct rows land on distinct screen rows, and within a row the eight
/// columns `(x0 + b) mod 64` are distinct.
proof fn lemma_hit_unique(x0: int, y0: int, r1: int, b1: int, r2: int, b2: int, p: int)
    requires
        0 <= x0,
        0 <= y0,
        0 <= r1,
        0 <= b1 < 8,
        0 <= r2,
        0 <= b2 < 8,
        hits(x0, y0, r1, b1, p),
        hits(x0, y0, r2, b2, p),
    ensures
        r1 == r2,
        b1 == b2,
{
    let c1 = (x0 + b1) % 64;
    let c2 = (x0 + b2) % 64;
    lemma_fundamental_div_mod(x0 + b1, 64);
    lemma_fundamental_div_mod(x0 + b2, 64);
    assert(0 <= c1 < 64);
    assert(0 <= c2 < 64);
    lemma_fundamental_div_mod_converse(p, 64, y0 + r1, c1);
    lemma_fundamental_div_mod_converse(p, 64, y0 + r2, c2);
    assert(r1 == r2);
    assert(c1 == c2);
    let q1 = (x0 + b1) / 64;
    let q2 = (x0 + b2) / 64;
    assert(x0 + b1 == 64 * q1 + c1);
    assert(x0 + b2 == 64 * q2 + c2);
    assert(b1 - b2 == 64 * (q1 - q2)) by (nonlinear_arith)
        requires
            x0 + b1 == 64 * q1 + c1,
            x0 + b2 == 64 * q2 + c2,
            c1 == c2,
    ;
    assert(-8 < b1 - b2 < 8);
    assert(q1 == q2) by (nonlinear_arith)
        requires
            b1 - b2 == 64 * (q1 - q2),
            -8 < b1 - b2 < 8,
    ;
}

/// A sprite cell that lands on `p` is never preceded by another cell that
/// lands on `p`: the drawing-order prefix strictly before it leaves `p`
/// untouched.
proof fn lemma_not_covered_before(
    mem: Seq<u8>,
    i: int,
    x0: int,
    y0: int,
    n: int,
    r: int,
    b: int,
    p: int,
)
    requires
        0 <= x0,
        0 <= y0,
        0 <= r < n,
        0 <= b < 8,
        hits(x0, y0, r, b, p),
    ensures
        !sprite_on_upto(mem, i, x0, y0, n, r, b, p),
{
    if sprite_on_upto(mem, i, x0, y0, n, r, b, p) {
        let (r2, b2) = choose|r2: int, b2: int|
            0 <= r2 < n && 0 <= b2 < 8 && before(r2, b2, r, b) && #[trigger] hits(
                x0,
                y0,
                r2,
                b2,
                p,
            ) && row_bit(mem[i + r2], b2);
        lemma_hit_unique(x0, y0, r, b, r2, b2, p);
        assert(false);
    }
}

/// Taking one more sprite cell into the prefix adds exactly that cell's
/// contribution.
proof fn lemma_upto_step(mem: Seq<u8>, i: int, x0: int, y0: int, n: int, r: int, b: int, p: int)
    requires
        0 <= r < n,
        0 <= b < 8,
    ensures
        sprite_on_upto(mem, i, x0, y0, n, r, b + 1, p) == (sprite_on_upto(
            mem,
            i,
            x0,
            y0,
            n,
            r,
            b,
            p,
        ) || (hits(x0, y0, r, b, p) && row_bit(mem[i + r], b))),
{
    if sprite_on_upto(mem, i, x0, y0, n, r, b + 1, p) {
        let (r2, b2) = choose|r2: int, b2: int|
            0 <= r2 < n && 0 <= b2 < 8 && before(r2, b2, r, b + 1) && #[trigger] hits(
                x0,
                y0,
                r2,
                b2,
                p,
            ) && row_bit(mem[i + r2], b2);
        if r2 == r && b2 == b {
            assert(hits(x0, y0, r, b, p) && row_bit(mem[i + r], b));
        } else {
            assert(before(r2, b2, r, b));
            assert(sprite_on_upto(mem, i, x0, y0, n, r, b, p));
        }
    }
    if sprite_on_upto(mem, i, x0, y0, n, r, b, p) {
        let (r2, b2) = choose|r2: int, b2: int|
            0 <= r2 < n && 0 <= b2 < 8 && before(r2, b2, r, b) && #[trigger] hits(
                x0,
                y0,
                r2,
                b2,
                p,
            ) && row_bit(mem[i + r2], b2);
        assert(before(r2, b2, r, b + 1));
        assert(sprite_on_upto(mem, i, x0, y0, n, r, b + 1, p));
    }
    if hits(x0, y0, r, b, p) && row_bit(mem[i + r], b) {
        assert(before(r, b, r, b + 1));
        assert(sprite_on_upto(mem, i, x0, y0, n, r, b + 1, p));
    }
}

/// A finished row reaches the same prefix as the start of the next row.
proof fn lemma_row_done(mem: Seq<u8>, i: int, x0: int, y0: int, n: int, r: int, p: int)
    ensures
        sprite_on_upto(mem, i, x0, y0, n, r, 8, p) == sprite_on_upto(
            mem,
            i,
            x0,
            y0,
            n,
            r + 1,
            0,
            p,
        ),
{
    if sprite_on_upto(mem, i, x0, y0, n, r, 8, p) {
        let (r2, b2) = choose|r2: int, b2: int|
            0 <= r2 < n && 0 <= b2 < 8 && before(r2, b2, r, 8) && #[trigger] hits(
                x0,
                y0,
                r2,
                b2,
                p,
            ) && row_bit(mem[i + r2], b2);
        assert(before(r2, b2, r + 1, 0));
        assert(sprite_on_upto(mem, i, x0, y0, n, r + 1, 0, p));
    }
    if sprite_on_upto(mem, i, x0, y0, n, r + 1, 0, p) {
        let (r2, b2) = choose|r2: int, b2: int|
            0 <= r2 < n && 0 <= b2 < 8 && before(r2, b2, r + 1, 0) && #[trigger] hits(
                x0,
                y0,
                r2,
                b2,
                p,
            ) && row_bit(mem[i + r2], b2);
        assert(before(r2, b2, r, 8));
        assert(sprite_on_upto(mem, i, x0, y0, n, r, 8, p));
    }
}

/// A row below the bottom edge of the screen contributes to no framebuffer
/// index: it is clipped.
proof fn lemma_row_clipped(mem: Seq<u8>, i: int, x0: int, y0: int, n: int, r: int, p: int)
    requires
        0 <= x0,
        0 <= y0,
        0 <= r < n,
        y0 + r >= 32,
        0 <= p < 2048,
    ensures
        sprite_on_upto(mem, i, x0, y0, n, r, 8, p) == sprite_on_upto(mem, i, x0, y0, n, r, 0, p),
{
    if sprite_on_upto(mem, i, x0, y0, n, r, 8, p) {
        let (r2, b2) = choose|r2: int, b2: int|
            0 <= r2 < n && 0 <= b2 < 8 && before(r2, b2, r, 8) && #[trigger] hits(
                x0,
                y0,
                r2,
                b2,
                p,
            ) && row_bit(mem[i + r2], b2);
        if r2 == r {
            assert(p == (x0 + b2) % 64 + 64 * (y0 + r));
            assert((x0 + b2) % 64 >= 0);
            assert(p >= 64 * 32);
            assert(false);
        } else {
            assert(before(r2, b2, r, 0));
            assert(sprite_on_upto(mem, i, x0, y0, n, r, 0, p));
        }
    }
    if sprite_on_upto(mem, i, x0, y0, n, r, 0, p) {
        let (r2, b2) = choose|r2: int, b2: int|
            0 <= r2 < n && 0 <= b2 < 8 && before(r2, b2, r, 0) && #[trigger] hits(
                x0,
                y0,
                r2,
                b2,
                p,
            ) && row_bit(mem[i + r2], b2);
        assert(before(r2, b2, r, 8));
        assert(sprite_on_upto(mem, i, x0, y0, n, r, 8, p));
    }
}

/// Two prefixes that put 1s on the same indices collide with the same
/// framebuffers.
proof fn lemma_collide_ext(
    vid0: Seq<bool>,
    mem: Seq<u8>,
    i: int,
    x0: int,
    y0: int,
    n: int,
    ra: int,
    ba: int,
    rb: int,
    bb: int,
)
    requires
        forall|p: int|
            0 <= p < vid0.len() ==> sprite_on_upto(mem, i, x0, y0, n, ra, ba, p)
                == sprite_on_upto(mem, i, x0, y0, n, rb, bb, p),
    ensures
        collide_upto(vid0, mem, i, x0, y0, n, ra, ba) == collide_upto(
            vid0,
            mem,
            i,
            x0,
            y0,
            n,
            rb,
            bb,
        ),
{
    if collide_upto(vid0, mem, i, x0, y0, n, ra, ba) {
        let p = choose|p: int|
            0 <= p < vid0.len() && vid0[p] && #[trigger] sprite_on_upto(
                mem,
                i,
                x0,
                y0,
                n,
                ra,
                ba,
                p,
            );
        assert(sprite_on_upto(mem, i, x0, y0, n, rb, bb, p));
        assert(collide_upto(vid0, mem, i, x0, y0, n, rb, bb));
    }
    if collide_upto(vid0, mem, i, x0, y0, n, rb, bb) {
        let p = choose|p: int|
            0 <= p < vid0.len() && vid0[p] && #[trigger] sprite_on_upto(
                mem,
                i,
                x0,
                y0,
                n,
                rb,
                bb,
                p,
            );
        assert(sprite_on_upto(mem, i, x0, y0, n, ra, ba, p));
        assert(collide_upto(vid0, mem, i, x0, y0, n, ra, ba));
    }
}

/// What the cells drawn before cell (`r_lim`, `b_lim`) did to the
/// framebuffer `vid0`.
spec fn video_upto(
    vid0: Seq<bool>,
    vid: Seq<bool>,
    mem: Seq<u8>,
    i: int,
    x0: int,
    y0: int,
    n: int,
    r_lim: int,
    b_lim: int,
) -> bool {
    vid.len() == vid0.len() && forall|p: int|
        0 <= p < vid0.len() ==> vid[p] == (vid0[p] ^ sprite_on_upto(
            mem,
            i,
            x0,
            y0,
            n,
            r_lim,
            b_lim,
            p,
        ))
}

/// Whether some cell drawn before cell (`r_lim`, `b_lim`) landed on an
/// already-set cell of `vid0`.
spec fn collide_upto(
    vid0: Seq<bool>,
    mem: Seq<u8>,
    i: int,
    x0: int,
    y0: int,
    n: int,
    r_lim: int,
    b_lim: int,
) -> bool {
    exists|p: int|
        0 <= p < vid0.len() && vid0[p] && #[trigger] sprite_on_upto(
            mem,
            i,
            x0,
            y0,
            n,
            r_lim,
            b_lim,
            p,
        )
}

impl Chip8 {
    /// Applies one `DRW`: XORs the `n`-row sprite at memory `I` into the
    /// framebuffer anchored at (Vx, Vy), sets register 15 to 1 exactly when
    /// some XOR turned a set cell off, and raises the redraw flag.
    pub(crate) fn draw_sprite(&mut self, x: usize, y: usize, n: usize)
        requires
            old(self).wf(),
            x < 16,
            y < 16,
            n < 16,
            n > 0 ==> old(self)@.i + n <= 4096,
        ensures
            final(self).wf(),
            final(self)@ == (State {
                video: draw_video(
                    old(self)@.video,
                    old(self)@.mem,
                    old(self)@.i as int,
                    old(self)@.v[x as int] as int,
                    old(self)@.v[y as int] as int,
                    n as int,
                ),
                v: old(self)@.v.update(
                    15,
                    if draw_collision(
                        old(self)@.video,
                        old(self)@.mem,
                        old(self)@.i as int,
                        old(self)@.v[x as int] as int,
                        old(self)@.v[y as int] as int,
                        n as int,
                    ) {
                        1u8
                    } else {
                        0u8
                    },
                ),
                redraw: true,
                ..old(self)@
            }),
    {
        let ghost pre = self@;
        let x0: usize = self.reg_v[x] as usize;
        let y0: usize = self.reg_v[y] as usize;
        let i: usize = self.reg_i as usize;
        let mut collided = false;
        let mut r: usize = 0;
        while r < n
            invariant
                pre.wf(),
                r <= n,
                n < 16,
                x0 == pre.v[x as int],
                y0 == pre.v[y as int],
                i == pre.i,
                n > 0 ==> i + n <= 4096,
                self@ == (State { video: self@.video, ..pre }),
                self@.video.len() == 2048,
                video_upto(pre.video, self@.video, pre.mem, i as int, x0 as int, y0 as int,
                    n as int, r as int, 0),
                collided == collide_upto(pre.video, pre.mem, i as int, x0 as int, y0 as int,
                    n as int, r as int, 0),
            decreases n - r,
        {
            let line: u8 = self.mem[i + r];
            let yy: usize = y0 + r;
            if yy < 32 {
                let mut b: usize = 0;
                while b < 8
                    invariant
                        pre.wf(),
                        b <= 8,
                        r < n,
                        n < 16,
                        x0 == pre.v[x as int],
                        y0 == pre.v[y as int],
                        i == pre.i,
                        n > 0 ==> i + n <= 4096,
                        yy == y0 + r,
                        yy < 32,
                        line == pre.mem[i + r],
                        self@ == (State { video: self@.video, ..pre }),
                        self@.video.len() == 2048,
                        video_upto(pre.video, self@.video, pre.mem, i as int, x0 as int,
                            y0 as int, n as int, r as int, b as int),
                        collided == collide_upto(pre.video, pre.mem, i as int, x0 as int,
                            y0 as int, n as int, r as int, b as int),
                    decreases 8 - b,
                {
                    let sh: u8 = (7 - b) as u8;
                    let bit: bool = ((line >> sh) & 1) == 1;
                    let xx: usize = (x0 + b) % 64;
                    let p: usize = xx + 64 * yy;
                    proof {
                        assert(p < 2048);
                        assert(hits(x0 as int, y0 as int, r as int, b as int, p as int));
                        assert(bit == row_bit(line, b as int));
                        lemma_not_covered_before(pre.mem, i as int, x0 as int, y0 as int,
                            n as int, r as int, b as int, p as int);
                    }
                    let cur: bool = self.video[p];
                    if bit && cur {
                        collided = true;
                    }
                    if bit {
                        self.video.set(p, !cur);
                    }
                    proof {
                        assert forall|q: int| 0 <= q < 2048 implies self@.video[q] == (
                        pre.video[q] ^ sprite_on_upto(pre.mem, i as int, x0 as int, y0 as int,
                            n as int, r as int, b + 1, q)) by {
                            lemma_upto_step(pre.mem, i as int, x0 as int, y0 as int, n as int,
                                r as int, b as int, q);
                            if q != p as int {
                                assert(!hits(x0 as int, y0 as int, r as int, b as int, q));
                            }
                        }
                        lemma_collide_step_local(pre.video, pre.mem, i as int, x0 as int,
                            y0 as int, n as int, r as int, b as int, p as int);
                    }
                    b = b + 1;
                }
                proof {
                    assert forall|q: int| 0 <= q < 2048 implies sprite_on_upto(pre.mem, i as int,
                        x0 as int, y0 as int, n as int, r as int, 8, q) == sprite_on_upto(pre.mem,
                        i as int, x0 as int, y0 as int, n as int, r + 1, 0, q) by {
                        lemma_row_done(pre.mem, i as int, x0 as int, y0 as int, n as int,
                            r as int, q);
                    }
                    lemma_collide_ext(pre.video, pre.mem, i as int, x0 as int, y0 as int,
                        n as int, r as int, 8, r + 1, 0);
                }
            } else {
                proof {
                    assert forall|q: int| 0 <= q < 2048 implies sprite_on_upto(pre.mem, i as int,
                        x0 as int, y0 as int, n as int, r as int, 0, q) == sprite_on_upto(pre.mem,
                        i as int, x0 as int, y0 as int, n as int, r + 1, 0, q) by {
                        lemma_row_clipped(pre.mem, i as int, x0 as int, y0 as int, n as int,
                            r as int, q);
                        lemma_row_done(pre.mem, i as int, x0 as int, y0 as int, n as int,
                            r as int, q);
                    }
                    lemma_collide_ext(pre.video, pre.mem, i as int, x0 as int, y0 as int,
                        n as int, r as int, 0, r + 1, 0);
                }
            }
            r = r + 1;
        }
        let flag: u8 = if collided {
            1
        } else {
            0
        };
        self.reg_v.set(15, flag);
        self.redraw = true;
        proof {
            assert(self@.video =~= draw_video(pre.video, pre.mem, pre.i as int,
                pre.v[x as int] as int, pre.v[y as int] as int, n as int));
            assert(collided == draw_collision(pre.video, pre.mem, pre.i as int,
                pre.v[x as int] as int, pre.v[y as int] as int, n as int));
            assert(self@ =~~= (State {
                video: draw_video(pre.video, pre.mem, pre.i as int, pre.v[x as int] as int,
                    pre.v[y as int] as int, n as int),
                v: pre.v.update(15, if draw_collision(pre.video, pre.mem, pre.i as int,
                    pre.v[x as int] as int, pre.v[y as int] as int, n as int) {
                    1u8
                } else {
                    0u8
                }),
                redraw: true,
                ..pre
            }));
        }
    }
}

/// One drawn cell extends the collision account by exactly its own test:
/// did it land on a cell that was set before the draw began?
proof fn lemma_collide_step_local(
    vid0: Seq<bool>,
    mem: Seq<u8>,
    i: int,
    x0: int,
    y0: int,
    n: int,
    r: int,
    b: int,
    p_star: int,
)
    requires
        0 <= r < n,
        0 <= b < 8,
        0 <= p_star < vid0.len(),
        hits(x0, y0, r, b, p_star),
    ensures
        collide_upto(vid0, mem, i, x0, y0, n, r, b + 1) == (collide_upto(
            vid0,
            mem,
            i,
            x0,
            y0,
            n,
            r,
            b,
        ) || (row_bit(mem[i + r], b) && vid0[p_star])),
{
    if collide_upto(vid0, mem, i, x0, y0, n, r, b + 1) {
        let p = choose|p: int|
            0 <= p < vid0.len() && vid0[p] && #[trigger] sprite_on_upto(
                mem,
                i,
                x0,
                y0,
                n,
                r,
                b + 1,
                p,
            );
        lemma_upto_step(mem, i, x0, y0, n, r, b, p);
        if sprite_on_upto(mem, i, x0, y0, n, r, b, p) {
            assert(collide_upto(vid0, mem, i, x0, y0, n, r, b));
        } else {
            assert(hits(x0, y0, r, b, p) && row_bit(mem[i + r], b));
            assert(p == p_star);
        }
    }
    if collide_upto(vid0, mem, i, x0, y0, n, r, b) {
        let p = choose|p: int|
            0 <= p < vid0.len() && vid0[p] && #[trigger] sprite_on_upto(
                mem,
                i,
                x0,
                y0,
                n,
                r,
                b,
                p,
            );
        lemma_upto_step(mem, i, x0, y0, n, r, b, p);
        assert(sprite_on_upto(mem, i, x0, y0, n, r, b + 1, p));
        assert(collide_upto(vid0, mem, i, x0, y0, n, r, b + 1));
    }
    if row_bit(mem[i + r], b) && vid0[p_star] {
        lemma_upto_step(mem, i, x0, y0, n, r, b, p_star);
        assert(sprite_on_upto(mem, i, x0, y0, n, r, b + 1, p_star));
        assert(collide_upto(vid0, mem, i, x0, y0, n, r, b + 1));
    }
}

} // verus!
