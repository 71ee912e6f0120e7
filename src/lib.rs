//! Host-side logic for proving SHA-256 over GF(2) with a layered circuit:
//! turning bytes into the bit assignment the circuit expects, checking an
//! assignment against the circuit's assertions on plain values, batching
//! instances, and the checks made on the results of solving and proving.

mod assignment;
mod bits;
mod checks;
mod digest;
mod message;

pub use assignment::{
    batch_for_input, consistent, is_bits, lemma_flipped_output_inconsistent, replicate,
    Sha256Assignment, INPUT_LEN, OUTPUT_LEN,
};
pub use bits::{
    bits_msb, bits_to_bytes, bytes_to_bits, lemma_bits_msb_injective, lemma_bits_msb_shape, msb_bit,
};
pub use checks::{
    check_instances, check_no_public_inputs, input_bytes, packed_witnesses, PipelineError,
};
pub use digest::{sha256_of, DIGEST_BYTES};
pub use message::random_message;
