use sha256_gkr::{
    batch_for_input, bits_to_bytes, bytes_to_bits, check_instances, check_no_public_inputs, input_bytes,
    packed_witnesses, random_message, replicate, PipelineError, Sha256Assignment, DIGEST_BYTES,
    INPUT_LEN, OUTPUT_LEN,
};

fn hex_bytes(s: &str) -> Vec<u8> {
    (0..s.len() / 2)
        .map(|i| u8::from_str_radix(&s[2 * i..2 * i + 2], 16).unwrap())
        .collect()
}

fn msb_bits(bytes: &[u8]) -> Vec<u32> {
    let mut r = Vec::new();
    for b in bytes {
        for j in 0..8 {
            r.push(((b >> (7 - j)) & 1) as u32);
        }
    }
    r
}

const ABCDEFGHIJ_DIGEST: &str = "72399361da6a7754fec986dca5b7cbaf1c810a28ded4abaf56b2106d06cb78b0";
const EMPTY_DIGEST: &str = "e3b0c44298fc1c149afbf4c8996fb92427ae41e4649b934ca495991b7852b855";

#[test]
fn bits_are_msb_first() {
    let bits = bytes_to_bits(&vec![0x80, 0x01, 0xa5]);
    assert_eq!(
        bits,
        vec![1, 0, 0, 0, 0, 0, 0, 0, 0, 0, 0, 0, 0, 0, 0, 1, 1, 0, 1, 0, 0, 1, 0, 1]
    );
}

#[test]
fn bits_of_empty_message() {
    assert!(bytes_to_bits(&Vec::new()).is_empty());
}

#[test]
fn ten_byte_message_claims_true_digest() {
    let data = b"abcdefghij".to_vec();
    let a = Sha256Assignment::for_input(&data);
    assert_eq!(a.input.len(), 80);
    assert_eq!(a.input, msb_bits(&data));
    assert_eq!(a.output.len(), OUTPUT_LEN);
    assert_eq!(a.output, msb_bits(&hex_bytes(ABCDEFGHIJ_DIGEST)));
}

#[test]
fn flipping_one_output_bit_changes_only_that_bit() {
    let data = b"abcdefghij".to_vec();
    let honest = Sha256Assignment::for_input(&data);
    let mut a = honest.duplicate();
    a.flip_output_bit(5);
    assert_eq!(a.input, honest.input);
    for k in 0..OUTPUT_LEN {
        if k == 5 {
            assert_eq!(a.output[k], 1 - honest.output[k]);
        } else {
            assert_eq!(a.output[k], honest.output[k]);
        }
    }
    assert_ne!(a.output, msb_bits(&hex_bytes(ABCDEFGHIJ_DIGEST)));
    a.flip_output_bit(5);
    assert_eq!(a.output, honest.output);
}

#[test]
fn empty_message_gives_empty_input_and_full_digest() {
    let a = Sha256Assignment::for_input(&Vec::new());
    assert!(a.input.is_empty());
    assert_eq!(a.output, msb_bits(&hex_bytes(EMPTY_DIGEST)));
}

#[test]
fn from_digest_takes_given_digest() {
    let data = vec![1u8, 2, 3];
    let digest = vec![0xffu8; DIGEST_BYTES];
    let a = Sha256Assignment::from_digest(&data, &digest);
    assert_eq!(a.input, msb_bits(&data));
    assert_eq!(a.output, vec![1u32; OUTPUT_LEN]);
}

#[test]
fn full_size_message_assignment() {
    let data = vec![7u8; INPUT_LEN / 8];
    let a = Sha256Assignment::for_input(&data);
    assert_eq!(a.input.len(), INPUT_LEN);
    assert_eq!(
        a.output,
        msb_bits(&hex_bytes("d876885b7f40eae70bd1f5247a9854914fa5812ce63998e2d894a68e187967cb"))
    );
}

#[test]
fn batch_holds_identical_instances() {
    let data = b"abcdefghij".to_vec();
    let batch = batch_for_input(&data, 8);
    assert_eq!(batch.len(), 8);
    let single = Sha256Assignment::for_input(&data);
    for a in &batch {
        assert_eq!(a.input, single.input);
        assert_eq!(a.output, single.output);
    }
    assert!(batch_for_input(&data, 0).is_empty());
}

#[test]
fn replicate_copies_the_assignment() {
    let mut a = Sha256Assignment::for_input(&vec![9u8; 4]);
    a.flip_output_bit(0);
    let r = replicate(&a, 3);
    assert_eq!(r.len(), 3);
    for x in &r {
        assert_eq!(x.input, a.input);
        assert_eq!(x.output, a.output);
    }
}

#[test]
fn input_bytes_of_aligned_and_unaligned_lengths() {
    assert_eq!(input_bytes(800), Ok(100));
    assert_eq!(input_bytes(80), Ok(10));
    assert_eq!(input_bytes(0), Ok(0));
    assert_eq!(input_bytes(81), Err(PipelineError::InputNotByteAligned { bits: 81 }));
}

#[test]
fn packed_witness_count() {
    assert_eq!(packed_witnesses(8, 8), Ok(1));
    assert_eq!(packed_witnesses(64, 8), Ok(8));
    assert_eq!(packed_witnesses(0, 8), Ok(0));
    assert_eq!(packed_witnesses(7, 8), Err(PipelineError::BatchNotPacked { count: 7, pack: 8 }));
}

#[test]
fn all_instances_passing() {
    assert_eq!(check_instances(&vec![true; 8]), Ok(()));
    assert_eq!(check_instances(&Vec::new()), Ok(()));
}

#[test]
fn first_failing_instance_is_reported() {
    assert_eq!(
        check_instances(&vec![true, true, false, true, false]),
        Err(PipelineError::UnsatisfiedInstance { index: 2 })
    );
    assert_eq!(check_instances(&vec![false]), Err(PipelineError::UnsatisfiedInstance { index: 0 }));
}

#[test]
fn public_inputs_are_refused() {
    assert_eq!(check_no_public_inputs(0), Ok(()));
    assert_eq!(check_no_public_inputs(3), Err(PipelineError::PublicInputsUnsupported { count: 3 }));
}

#[test]
fn random_message_has_requested_length() {
    assert_eq!(random_message(100).len(), 100);
    assert!(random_message(0).is_empty());
}

#[test]
fn bits_pack_back_into_bytes() {
    let data = vec![0x80u8, 0x01, 0xa5, 0x00, 0xff];
    assert_eq!(bits_to_bytes(&bytes_to_bits(&data)), data);
    assert_eq!(bits_to_bytes(&vec![0, 1, 1, 0, 0, 0, 0, 1]), vec![0x61]);
    assert!(bits_to_bytes(&Vec::new()).is_empty());
}

#[test]
fn honest_assignment_holds_and_flipped_one_does_not() {
    let data = b"abcdefghij".to_vec();
    let mut a = Sha256Assignment::for_input(&data);
    assert!(a.claims_true_digest());
    a.flip_output_bit(255);
    assert!(!a.claims_true_digest());
    a.flip_output_bit(255);
    assert!(a.claims_true_digest());
}

#[test]
fn empty_message_assignment_holds() {
    assert!(Sha256Assignment::for_input(&Vec::new()).claims_true_digest());
}

#[test]
fn wrong_digest_does_not_hold() {
    let data = b"abcdefghij".to_vec();
    assert!(!Sha256Assignment::from_digest(&data, &vec![0u8; DIGEST_BYTES]).claims_true_digest());
    assert!(Sha256Assignment::from_digest(&data, &hex_bytes(ABCDEFGHIJ_DIGEST)).claims_true_digest());
}

#[test]
fn malformed_input_bits_do_not_hold() {
    let mut a = Sha256Assignment::for_input(&vec![0u8; 2]);
    a.input[3] = 2;
    assert!(!a.claims_true_digest());
    let mut b = Sha256Assignment::for_input(&vec![0u8; 2]);
    b.input.pop();
    assert!(!b.claims_true_digest());
}
