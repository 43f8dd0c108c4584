//! Creation flags of the CUDA streams that cuDF work is issued on.
use vstd::prelude::*;

verus! {

/// Stream creation flags for CUDA stream-backed cuDF execution.
#[derive(Clone, Copy, PartialEq, Eq, Debug, Structural)]
pub enum CuDFStreamFlags {
    /// Create a stream that synchronizes with the default stream.
    SyncDefault,
    /// Create a non-blocking stream that does not synchronize with the default stream.
    NonBlocking,
}

/// CUDA's `cudaStreamDefault` creation flag.
pub const CUDA_STREAM_FLAG_SYNC_DEFAULT: u32 = 0;

/// CUDA's `cudaStreamNonBlocking` creation flag.
pub const CUDA_STREAM_FLAG_NON_BLOCKING: u32 = 1;

/// The CUDA creation flag of each stream flag.
pub open spec fn cuda_flag(value: CuDFStreamFlags) -> u32 {
    match value {
        CuDFStreamFlags::SyncDefault => CUDA_STREAM_FLAG_SYNC_DEFAULT,
        CuDFStreamFlags::NonBlocking => CUDA_STREAM_FLAG_NON_BLOCKING,
    }
}

impl From<CuDFStreamFlags> for u32 {
    fn from(value: CuDFStreamFlags) -> (r: u32) {
        match value {
            CuDFStreamFlags::SyncDefault => CUDA_STREAM_FLAG_SYNC_DEFAULT,
            CuDFStreamFlags::NonBlocking => CUDA_STREAM_FLAG_NON_BLOCKING,
        }
    }
}

impl vstd::std_specs::convert::FromSpecImpl<CuDFStreamFlags> for u32 {
    open spec fn obeys_from_spec() -> bool {
        true
    }

    open spec fn from_spec(value: CuDFStreamFlags) -> u32 {
        cuda_flag(value)
    }
}

/// The two stream flags give different CUDA flags.
pub proof fn lemma_stream_flags_distinct(a: CuDFStreamFlags, b: CuDFStreamFlags)
    ensures
        cuda_flag(a) == cuda_flag(b) ==> a == b,
{
}

} // verus!
