//! The shapes of learned audio embeddings: what goes into a model and what comes out.

use vstd::prelude::*;

verus! {

/// Sample rate that models expect.
pub const MODEL_SAMPLE_RATE: u32 = 16000;

/// Samples that the input is padded to a multiple of (10ms frames at 16kHz).
pub const FRAME_ALIGN: usize = 160;

/// Embedding dimension where a model does not say.
pub const FALLBACK_DIM: usize = 512;

/// Number of samples after zero-padding: the least multiple of the frame size
/// that holds them.
pub fn padded_len(len: usize) -> (r: usize)
    requires
        len + FRAME_ALIGN <= usize::MAX,
    ensures
        r as int % FRAME_ALIGN as int == 0,
        len <= r < len + FRAME_ALIGN,
        r as int % 160 == 0,
        r < len + 160,
{
    let remainder: usize = len % FRAME_ALIGN;
    if remainder != 0 {
        len + FRAME_ALIGN - remainder
    } else {
        len
    }
}

/// Dimension of the embeddings, from the last dimension of a model's output;
/// one that is not positive is dynamic.
pub fn output_dim(last: Option<i64>) -> (r: usize)
    requires
        last matches Some(d) ==> d <= usize::MAX,
    ensures
        r == (match last {
            Some(d) if d > 0 => d as int,
            _ => FALLBACK_DIM as int,
        }),
        last is None ==> r == 512,
{
    match last {
        Some(d) => {
            if d > 0 {
                d as usize
            } else {
                FALLBACK_DIM
            }
        },
        None => FALLBACK_DIM,
    }
}

/// Where the `d`-th number of the `frame`-th embedding stands.
pub open spec fn position(frame: int, dim: int, d: int) -> int {
    frame * dim + d
}

/// Index of the `d`-th number of the `frame`-th embedding.
pub fn pooled_index(frames: usize, dim: usize, frame: usize, d: usize) -> (r: usize)
    requires
        frame < frames,
        d < dim,
        frames * dim <= usize::MAX,
    ensures
        r == position(frame as int, dim as int, d as int),
        r < frames * dim,
{
    proof {
        law_frames_partition_the_output(
            frames as int,
            dim as int,
            frame as int,
            d as int,
            frame as int,
            d as int,
        );
        assert(frame * dim >= 0) by (nonlinear_arith);
    }
    frame * dim + d
}

/// The numbers that are averaged into one embedding: how many frames there
/// are, and of what dimension. An output that does not have three dimensions
/// is one embedding as it is.
pub fn frames_to_pool(dims: &Vec<i64>) -> (r: Option<(usize, usize)>)
    requires
        dims@.len() == 3 ==> 0 <= dims@[1] <= usize::MAX && 0 <= dims@[2] <= usize::MAX,
    ensures
        r is Some <==> dims@.len() == 3,
        r matches Some((frames, dim)) ==> frames == dims@[1] && dim == dims@[2],
{
    if dims.len() == 3 {
        Some((dims[1] as usize, dims[2] as usize))
    } else {
        None
    }
}

/// The numbers of all frames lie within the output, and no two of them share a
/// place.
pub proof fn law_frames_partition_the_output(
    frames: int,
    dim: int,
    frame: int,
    d: int,
    other_frame: int,
    other_d: int,
)
    requires
        0 <= frame < frames,
        0 <= d < dim,
        0 <= other_frame < frames,
        0 <= other_d < dim,
    ensures
        0 <= position(frame, dim, d) < frames * dim,
        position(frame, dim, d) == position(other_frame, dim, other_d) ==> frame == other_frame && d
            == other_d,
{
    assert(0 <= frame * dim + d < frames * dim) by (nonlinear_arith)
        requires
            0 <= frame < frames,
            0 <= d < dim,
    ;
    assert(frame * dim + d == other_frame * dim + other_d ==> frame == other_frame)
        by (nonlinear_arith)
        requires
            0 <= d < dim,
            0 <= other_d < dim,
    ;
}

/// The numbers of a frame stand one after the other, and the frames too, from
/// the start of the output on.
pub proof fn law_frames_stand_in_order(frame: int, dim: int, d: int)
    ensures
        position(0, dim, 0) == 0,
        position(frame, dim, d + 1) == position(frame, dim, d) + 1,
        position(frame + 1, dim, 0) == position(frame, dim, dim - 1) + 1,
{
    assert((frame + 1) * dim == frame * dim + dim) by (nonlinear_arith);
}

/// Models expect the rate of audible recordings, in frames of ten milliseconds.
pub proof fn law_frames_last_ten_milliseconds()
    ensures
        100 * FRAME_ALIGN == MODEL_SAMPLE_RATE,
        MODEL_SAMPLE_RATE == crate::audio::FrequencyMode::Audible.rate(),
        MODEL_SAMPLE_RATE == 16000,
{
}

} // verus!
