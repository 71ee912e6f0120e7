use vstd::prelude::*;

verus! {

/// Why a step of the pipeline cannot go on.
#[derive(Debug, PartialEq, Eq, Structural)]
pub enum PipelineError {
    /// The message length in bits is not a whole number of bytes.
    InputNotByteAligned { bits: usize },
    /// A batch of `count` assignments does not fill whole packed witnesses of
    /// `pack` lanes each.
    BatchNotPacked { count: usize, pack: usize },
    /// The assertions of instance `index` did not all hold.
    UnsatisfiedInstance { index: usize },
    /// The cross-layer prover takes no public inputs, and `count` were given.
    PublicInputsUnsupported { count: usize },
}

/// Number of bytes in a message of `bits` bits, when that is whole.
pub fn input_bytes(bits: usize) -> (r: Result<usize, PipelineError>)
    ensures
        bits % 8 == 0 ==> r == Ok::<usize, PipelineError>(bits / 8),
        bits % 8 != 0 ==> r == Err::<usize, PipelineError>(PipelineError::InputNotByteAligned { bits }),
{
    if bits % 8 == 0 {
        Ok(bits / 8)
    } else {
        Err(PipelineError::InputNotByteAligned { bits })
    }
}

/// Number of packed witnesses that `count` assignments fill, `pack` lanes
/// each; the count must be a multiple of the packing factor.
pub fn packed_witnesses(count: usize, pack: usize) -> (r: Result<usize, PipelineError>)
    requires
        pack > 0,
    ensures
        count % pack == 0 ==> r == Ok::<usize, PipelineError>(count / pack),
        count % pack != 0 ==> r == Err::<usize, PipelineError>(
            PipelineError::BatchNotPacked { count, pack },
        ),
{
    if count % pack == 0 {
        Ok(count / pack)
    } else {
        Err(PipelineError::BatchNotPacked { count, pack })
    }
}

/// Reads the per-instance results of replaying the circuit over a witness:
/// success when every instance held, else the first instance that did not.
pub fn check_instances(results: &Vec<bool>) -> (r: Result<(), PipelineError>)
    ensures
        r is Ok <==> forall|k: int| 0 <= k < results.len() ==> results[k],
        r matches Err(e) ==> e matches PipelineError::UnsatisfiedInstance { index } && index
            < results.len() && !results[index as int] && forall|k: int|
            0 <= k < index ==> results[k],
{
    let mut i: usize = 0;
    while i < results.len()
        invariant
            i <= results.len(),
            forall|k: int| 0 <= k < i ==> results[k],
        decreases results.len() - i,
    {
        if !results[i] {
            return Err(PipelineError::UnsatisfiedInstance { index: i });
        }
        i += 1;
    }
    Ok(())
}

/// The cross-layer prover is run only on a witness without public inputs.
pub fn check_no_public_inputs(count: usize) -> (r: Result<(), PipelineError>)
    ensures
        count == 0 ==> r == Ok::<(), PipelineError>(()),
        count != 0 ==> r == Err::<(), PipelineError>(PipelineError::PublicInputsUnsupported { count }),
{
    if count == 0 {
        Ok(())
    } else {
        Err(PipelineError::PublicInputsUnsupported { count })
    }
}

} // verus!
