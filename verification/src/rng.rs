use vstd::prelude::*;
use rand::Rng;

verus! {

/// One byte from `rand::thread_rng()`, drawn with `Rng::gen`. Nothing is
/// claimed of its value. The generator is seeded from the operating system
/// when a thread first uses it, and panics there if the system gives it no
/// entropy.
#[verifier::external_body]
pub(crate) fn random_byte() -> (byte: u8) {
    let mut rng = rand::thread_rng();
    rng.gen::<u8>()
}

} // verus!
