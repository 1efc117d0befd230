//! The flat 4096-byte memory image and the builders that seed it: the font
//! table at the bottom, the program from 0x200 on.

use vstd::prelude::*;

use crate::Chip8Error;
use crate::font::font_set;
use crate::font::font_table;
use crate::state::loaded_mem;

verus! {

/// A bare 4096-byte memory image, all zeroes.
pub struct Mem {
    bytes: Vec<u8>,
}

impl View for Mem {
    type V = Seq<u8>;

    /// Every byte of the image, in address order.
    closed spec fn view(&self) -> Seq<u8> {
        self.bytes@
    }
}

impl Mem {
    /// A zeroed image.
    pub fn new() -> (r: Mem)
        ensures
            r@ == Seq::new(4096, |a: int| 0u8),
    {
        let mut bytes: Vec<u8> = Vec::new();
        let mut k: usize = 0;
        while k < 4096
            invariant
                k <= 4096,
                bytes@ == Seq::new(k as nat, |a: int| 0u8),
            decreases 4096 - k,
        {
            bytes.push(0);
            k = k + 1;
            proof {
                assert(bytes@ =~= Seq::new(k as nat, |a: int| 0u8));
            }
        }
        Mem { bytes }
    }
}

/// A reset memory image: the font table in bytes [0, 80), zeroes above.
pub(crate) fn new_mem() -> (r: Vec<u8>)
    ensures
        r@ == loaded_mem(Seq::<u8>::empty()),
{
    let mut r: Vec<u8> = font_table();
    let mut k: usize = 80;
    while k < 4096
        invariant
            80 <= k <= 4096,
            r@.len() == k,
            forall|a: int| 0 <= a < 80 ==> r@[a] == font_set()[a],
            forall|a: int| 80 <= a < k ==> r@[a] == 0u8,
        decreases 4096 - k,
    {
        r.push(0);
        k = k + 1;
    }
    proof {
        assert(r@ =~= loaded_mem(Seq::<u8>::empty()));
    }
    r
}

/// A reset memory image with `bytes` installed from 0x200 on.  Rejects a
/// program of more than 3584 bytes, reporting its length.
pub(crate) fn into_mem(bytes: &[u8]) -> (r: Result<Vec<u8>, Chip8Error>)
    ensures
        bytes@.len() > 3584 ==> r == Err::<Vec<u8>, Chip8Error>(
            (Chip8Error::ROMTooLarge { size: bytes@.len() as usize }),
        ),
        bytes@.len() <= 3584 ==> (r matches Ok(m) && m@ == loaded_mem(bytes@)),
{
    if bytes.len() > 3584 {
        return Err(Chip8Error::ROMTooLarge { size: bytes.len() });
    }
    let mut m: Vec<u8> = new_mem();
    let mut k: usize = 0;
    while k < bytes.len()
        invariant
            k <= bytes@.len() <= 3584,
            m@.len() == 4096,
            forall|a: int|
                0 <= a < 4096 && !(0x200 <= a < 0x200 + k) ==> m@[a] == loaded_mem(
                    Seq::<u8>::empty(),
                )[a],
            forall|a: int| 0x200 <= a < 0x200 + k ==> m@[a] == bytes@[a - 0x200],
        decreases bytes@.len() - k,
    {
        m.set(0x200 + k, bytes[k]);
        k = k + 1;
    }
    proof {
        assert(m@ =~= loaded_mem(bytes@));
    }
    Ok(m)
}

} // verus!
