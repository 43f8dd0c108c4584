//! The session options that the cuDF rules read.
use vstd::prelude::*;
use crate::stream::CuDFStreamFlags;

verus! {

/// The part of DataFusion's `ConfigOptions` that the cuDF rules read: the
/// execution's target partition count and the registered cuDF extension, if any.
pub struct ConfigOptions<E> {
    pub target_partitions: usize,
    pub extension: Option<E>,
}

/// Errors when reading the cuDF options.
#[derive(Clone, Copy, PartialEq, Eq, Debug, Structural)]
pub enum ConfigError {
    /// `CuDFConfig is not in ConfigOptions.extensions`.
    MissingExtension,
}

/// Allocates CUDA streams for cuDF execution; private runtime state of the
/// cuDF options, not a user-facing setting.
#[derive(Clone, Copy, PartialEq, Eq, Debug, Structural)]
pub struct CuDFStreamSource;

impl CuDFStreamSource {
    /// The flags of the streams it allocates: non-blocking, so that they do not
    /// synchronize with the default stream.
    pub fn allocation_flags(&self) -> (r: CuDFStreamFlags)
        ensures
            r == CuDFStreamFlags::NonBlocking,
    {
        CuDFStreamFlags::NonBlocking
    }
}

} // verus!
