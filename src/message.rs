use vstd::prelude::*;

verus! {

/// Relies on `rand::rng` and `RngCore::next_u32` of `ThreadRng` (rand 0.9):
/// a value drawn from the thread-local generator. Nothing is known of it.
#[verifier::external_body]
fn random_u32() -> (r: u32) {
    rand::RngCore::next_u32(&mut rand::rng())
}

/// A message of `len` bytes, each drawn at random (the low byte of a draw).
pub fn random_message(len: usize) -> (r: Vec<u8>)
    ensures
        r.len() == len,
{
    let mut r: Vec<u8> = Vec::new();
    let mut i: usize = 0;
    while i < len
        invariant
            i <= len,
            r.len() == i,
        decreases len - i,
    {
        let x = random_u32();
        r.push((x & 0xffu32) as u8);
        i += 1;
    }
    r
}

} // verus!
