use vstd::prelude::*;
use vstd::arithmetic::div_mod::lemma_fundamental_div_mod_converse;

use crate::readback::{byte_of, le_bytes_of};

verus! {

/// The little-endian image of `words`: four bytes per word, least significant
/// first, in order.
pub fn le_bytes(words: &[u32]) -> (r: Vec<u8>)
    ensures
        r@ == le_bytes_of(words@),
{
    let mut out: Vec<u8> = Vec::new();
    let mut i: usize = 0;
    while i < words.len()
        invariant
            i <= words@.len(),
            out@.len() == 4 * i,
            forall|k: int| 0 <= k < 4 * i ==> #[trigger] out@[k] == byte_of(words@[k / 4], (k % 4) as nat),
        decreases words@.len() - i,
    {
        let w = words[i];
        let ghost before = out@;
        out.push((w % 0x100) as u8);
        out.push(((w / 0x100) % 0x100) as u8);
        out.push(((w / 0x1_0000) % 0x100) as u8);
        out.push((w / 0x100_0000) as u8);
        assert forall|k: int| 0 <= k < 4 * (i + 1) implies #[trigger] out@[k] == byte_of(
            words@[k / 4],
            (k % 4) as nat,
        ) by {
            if k < 4 * i {
                assert(out@[k] == before[k]);
            } else {
                lemma_fundamental_div_mod_converse(k, 4, i as int, k - 4 * i);
            }
        }
        i += 1;
    }
    assert(out@ =~= le_bytes_of(words@));
    out
}

} // verus!
