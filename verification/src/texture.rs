use vstd::prelude::*;
use vstd::wrapping::u32_specs::{wrapping_add, wrapping_mul};

verus! {

/// The integer hash behind the procedural detail-normal texture: a value
/// in 0..1024 for texel (`x`, `y`), which the texture builder scales to
/// 0..=1.
pub open spec fn noise_hash_spec(x: u32, y: u32) -> u32 {
    let h = wrapping_add(wrapping_mul(x, 374761393), wrapping_mul(y, 668265263));
    let h2 = wrapping_mul(h ^ (h >> 13u32), 1274126177);
    (h2 ^ (h2 >> 16u32)) % 1024
}

/// Hash of texel (`x`, `y`) for the detail-normal texture.
pub fn noise_hash(x: u32, y: u32) -> (r: u32)
    ensures
        r == noise_hash_spec(x, y),
        r < 1024,
{
    let mut h = x.wrapping_mul(374761393).wrapping_add(y.wrapping_mul(668265263));
    h = (h ^ (h >> 13)).wrapping_mul(1274126177);
    (h ^ (h >> 16)) % 1024
}

} // verus!
