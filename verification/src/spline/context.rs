//! Where in the data a read was made, for error reports.

use vstd::prelude::*;

use super::math::{QuantizationType, SplineTrackType};

verus! {

/// The block, track, track kind and quantization a read belongs to, as far
/// as they are known.
#[derive(Debug, Clone, Copy)]
pub struct ReadContext {
    pub block_index: Option<usize>,
    pub track_index: Option<usize>,
    pub track_type: Option<SplineTrackType>,
    pub quantization: Option<QuantizationType>,
}

impl Default for ReadContext {
    fn default() -> (r: Self)
        ensures
            r.block_index is None,
            r.track_index is None,
            r.track_type is None,
            r.quantization is None,
    {
        ReadContext { block_index: None, track_index: None, track_type: None, quantization: None }
    }
}

} // verus!
