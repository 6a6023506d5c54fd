use vstd::prelude::*;
use crate::error::PipelineError;

verus! {

/// All channel sample sequences share one length, so a mixdown that averages
/// the channels index by index is well defined.
pub open spec fn channels_aligned(lengths: Seq<usize>) -> bool {
    forall|i: int| 0 <= i < lengths.len() ==> #[trigger] lengths[i] == lengths[0]
}

/// Defensive check before mixdown: the per-channel sample counts must all be
/// equal, else the buffer is rejected as `ChannelMismatch`.
pub fn check_channel_lengths(lengths: &Vec<usize>) -> (r: Result<(), PipelineError>)
    ensures
        r is Ok <==> channels_aligned(lengths@),
        r matches Err(e) ==> e is ChannelMismatch,
{
    if lengths.len() == 0 {
        return Ok(());
    }
    let first = lengths[0];
    let mut i: usize = 1;
    while i < lengths.len()
        invariant
            1 <= i <= lengths@.len(),
            first == lengths@[0],
            forall|j: int| 0 <= j < i ==> #[trigger] lengths@[j] == lengths@[0],
        decreases lengths@.len() - i,
    {
        if lengths[i] != first {
            assert(lengths@[i as int] != lengths@[0]);
            return Err(PipelineError::ChannelMismatch);
        }
        i = i + 1;
    }
    Ok(())
}

} // verus!
