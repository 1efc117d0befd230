//! The built-in glyph font: sixteen 5-byte sprites, one for each hexadecimal
//! digit, seeded at the bottom of memory on every reset.

use vstd::prelude::*;

verus! {

/// The 80 bytes of the font table: glyph `d` occupies bytes
/// `[5 * d, 5 * d + 5)`, one byte per sprite row, most significant bit
/// leftmost.
pub open spec fn font_set() -> Seq<u8> {
    seq![
        0xf0u8, 0x90, 0x90, 0x90, 0xf0, // 0
        0x20, 0x60, 0x20, 0x20, 0x70, // 1
        0xf0, 0x10, 0xf0, 0x80, 0xf0, // 2
        0xf0, 0x10, 0xf0, 0x10, 0xf0, // 3
        0xa0, 0xa0, 0xf0, 0x20, 0x20, // 4
        0xf0, 0x80, 0xf0, 0x10, 0xf0, // 5
        0xf0, 0x80, 0xf0, 0x90, 0xf0, // 6
        0xf0, 0x10, 0x20, 0x40, 0x40, // 7
        0xf0, 0x90, 0xf0, 0x90, 0xf0, // 8
        0xf0, 0x90, 0xf0, 0x10, 0xf0, // 9
        0xf0, 0x90, 0xf0, 0x90, 0x90, // a
        0xe0, 0x90, 0xe0, 0x90, 0xe0, // b
        0xf0, 0x80, 0x80, 0x80, 0xf0, // c
        0xe0, 0x90, 0x90, 0x90, 0xe0, // d
        0xf0, 0x80, 0xf0, 0x80, 0xf0, // e
        0xf0, 0x80, 0xf0, 0x80, 0x80, // f
    ]
}

/// Builds the font table as a byte vector.
pub fn font_table() -> (r: Vec<u8>)
    ensures
        r@ == font_set(),
{
    let mut r: Vec<u8> = Vec::new();
    push_glyph(&mut r, 0xf0, 0x90, 0x90, 0x90, 0xf0);
    push_glyph(&mut r, 0x20, 0x60, 0x20, 0x20, 0x70);
    push_glyph(&mut r, 0xf0, 0x10, 0xf0, 0x80, 0xf0);
    push_glyph(&mut r, 0xf0, 0x10, 0xf0, 0x10, 0xf0);
    push_glyph(&mut r, 0xa0, 0xa0, 0xf0, 0x20, 0x20);
    push_glyph(&mut r, 0xf0, 0x80, 0xf0, 0x10, 0xf0);
    push_glyph(&mut r, 0xf0, 0x80, 0xf0, 0x90, 0xf0);
    push_glyph(&mut r, 0xf0, 0x10, 0x20, 0x40, 0x40);
    push_glyph(&mut r, 0xf0, 0x90, 0xf0, 0x90, 0xf0);
    push_glyph(&mut r, 0xf0, 0x90, 0xf0, 0x10, 0xf0);
    push_glyph(&mut r, 0xf0, 0x90, 0xf0, 0x90, 0x90);
    push_glyph(&mut r, 0xe0, 0x90, 0xe0, 0x90, 0xe0);
    push_glyph(&mut r, 0xf0, 0x80, 0x80, 0x80, 0xf0);
    push_glyph(&mut r, 0xe0, 0x90, 0x90, 0x90, 0xe0);
    push_glyph(&mut r, 0xf0, 0x80, 0xf0, 0x80, 0xf0);
    push_glyph(&mut r, 0xf0, 0x80, 0xf0, 0x80, 0x80);
    proof {
        assert(r@ =~= font_set());
    }
    r
}

/// Appends the five row bytes of one glyph.
fn push_glyph(r: &mut Vec<u8>, b0: u8, b1: u8, b2: u8, b3: u8, b4: u8)
    ensures
        final(r)@ == old(r)@ + seq![b0, b1, b2, b3, b4],
{
    r.push(b0);
    r.push(b1);
    r.push(b2);
    r.push(b3);
    r.push(b4);
    proof {
        assert(r@ =~= old(r)@ + seq![b0, b1, b2, b3, b4]);
    }
}

} // verus!
