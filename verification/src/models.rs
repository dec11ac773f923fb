//! Request, response and result records.
//!
//! Floating-point quantities (a match's confidence and duration) are held as
//! their IEEE-754 bit patterns (`f32::to_bits`), which carry the value
//! exactly; `float_order` below orders them as the floats they encode.

use vstd::prelude::*;

verus! {

/// Body of `POST /api/identify`.
pub struct IdentifyRequest {
    pub url: String,
}

/// Answer to `POST /api/identify`.
pub struct IdentifyResponse {
    pub task_id: String,
    pub status: TaskStatus,
}

/// Progress of an identification task.
#[derive(Debug, Clone, Copy, PartialEq, Eq, Structural)]
pub enum TaskStatus {
    Queued,
    Downloading,
    Converting,
    Identifying,
    Done,
    Error,
}

impl Default for TaskStatus {
    fn default() -> (s: Self)
        ensures
            s == TaskStatus::Queued,
    {
        TaskStatus::Queued
    }
}

impl TaskStatus {
    /// The wire name of the status (its snake_case variant name).
    pub fn wire_name(&self) -> (r: &'static str)
        ensures
            r@ == status_wire_name(*self),
    {
        proof {
            reveal_strlit("queued");
            reveal_strlit("downloading");
            reveal_strlit("converting");
            reveal_strlit("identifying");
            reveal_strlit("done");
            reveal_strlit("error");
        }
        match self {
            TaskStatus::Queued => "queued",
            TaskStatus::Downloading => "downloading",
            TaskStatus::Converting => "converting",
            TaskStatus::Identifying => "identifying",
            TaskStatus::Done => "done",
            TaskStatus::Error => "error",
        }
    }
}

/// The snake_case name of each status.
pub open spec fn status_wire_name(s: TaskStatus) -> Seq<char> {
    match s {
        TaskStatus::Queued => seq!['q', 'u', 'e', 'u', 'e', 'd'],
        TaskStatus::Downloading => seq!['d', 'o', 'w', 'n', 'l', 'o', 'a', 'd', 'i', 'n', 'g'],
        TaskStatus::Converting => seq!['c', 'o', 'n', 'v', 'e', 'r', 't', 'i', 'n', 'g'],
        TaskStatus::Identifying => seq!['i', 'd', 'e', 'n', 't', 'i', 'f', 'y', 'i', 'n', 'g'],
        TaskStatus::Done => seq!['d', 'o', 'n', 'e'],
        TaskStatus::Error => seq!['e', 'r', 'r', 'o', 'r'],
    }
}

/// One candidate song found by a provider.
pub struct SongMatch {
    pub rank: Option<usize>,
    pub title: String,
    pub artist: String,
    pub album: Option<String>,
    /// Bits of the `f32` confidence.
    pub confidence_bits: u32,
    pub provider: String,
    pub artwork_url: Option<String>,
    pub preview_url: Option<String>,
    pub isrc: Option<String>,
    /// Bits of the `f32` duration in seconds.
    pub duration_bits: Option<u32>,
}

/// The state of a task as stored and reported. `completed` tells whether
/// the task is over (its completion time is added when it is stored).
pub struct TaskResult {
    pub task_id: String,
    pub status: TaskStatus,
    /// Bits of the `f32` progress, from 0 to 1.
    pub progress_bits: u32,
    pub message: String,
    pub songs: Vec<SongMatch>,
    pub completed: bool,
}

// ---------------------------------------------------------------------
// IEEE-754 single precision, read from the bits
// ---------------------------------------------------------------------

/// The sign bit is set.
pub open spec fn f32_negative(bits: u32) -> bool {
    bits >= 0x8000_0000
}

/// The bits without the sign bit.
pub open spec fn f32_magnitude(bits: u32) -> int {
    if f32_negative(bits) {
        bits - 0x8000_0000
    } else {
        bits as int
    }
}

/// The bits encode a NaN (all exponent bits set, non-zero mantissa).
pub open spec fn f32_is_nan(bits: u32) -> bool {
    f32_magnitude(bits) > 0x7f80_0000
}

/// An integer that orders non-NaN floats as the reals they encode: the
/// magnitude bits grow with the absolute value, and both zeros map to 0.
pub open spec fn float_order(bits: u32) -> int {
    if f32_negative(bits) {
        -f32_magnitude(bits)
    } else {
        bits as int
    }
}

/// Bits of `1.0f32`.
pub const F32_ONE_BITS: u32 = 0x3f80_0000;

/// Bits of `0.0f32`.
pub const F32_ZERO_BITS: u32 = 0;

/// `float_order` computed.
pub fn f32_order(bits: u32) -> (r: i64)
    ensures
        r == float_order(bits),
{
    if bits >= 0x8000_0000 {
        -((bits - 0x8000_0000) as i64)
    } else {
        bits as i64
    }
}

/// `f32_is_nan` computed.
pub fn is_nan_bits(bits: u32) -> (r: bool)
    ensures
        r == f32_is_nan(bits),
{
    let mag = if bits >= 0x8000_0000 {
        bits - 0x8000_0000
    } else {
        bits
    };
    mag > 0x7f80_0000
}

/// `f32::min(x, 1.0)` on bits: a NaN gives 1.0, and so does anything above 1.0.
pub open spec fn capped_at_one(bits: u32) -> u32 {
    if f32_is_nan(bits) || float_order(bits) > float_order(F32_ONE_BITS) {
        F32_ONE_BITS
    } else {
        bits
    }
}

/// `f32::min(x, 1.0)` computed on bits.
pub fn cap_at_one(bits: u32) -> (r: u32)
    ensures
        r == capped_at_one(bits),
{
    if is_nan_bits(bits) || f32_order(bits) > f32_order(F32_ONE_BITS) {
        F32_ONE_BITS
    } else {
        bits
    }
}

/// A confidence capped at one is a number, and at most one.
pub proof fn law_capped_confidence_is_at_most_one(bits: u32)
    ensures
        !f32_is_nan(capped_at_one(bits)),
        float_order(capped_at_one(bits)) <= float_order(F32_ONE_BITS),
{
}

} // verus!
