//! Compute-dispatch and resource-management core of a tensor backend that
//! targets a portable GPU compute API.
//!
//! The library translates a stream of tensor operations into a sequence of
//! GPU compute dispatches: it packs per-dispatch parameters into a shared,
//! offset-aligned metadata buffer, manages logical buffer references through
//! a caching allocator with a high-water memory budget, and batches
//! dispatches into command buffers with bounded metadata and workload per
//! submission.
//!
//! Everything here is plain data and decisions: the command buffers produced
//! by the flush planner are self-contained records that a thin driver shim
//! executes against the real GPU API.

use vstd::prelude::*;

pub mod binary;
pub mod bindgroup;
pub mod cache;
pub mod conv2d;
pub mod convert;
pub mod copy;
pub mod flush;
pub mod laws;
pub mod layout;
pub mod meta;
pub mod pipeline;
pub mod queue;
pub mod unary;

verus! {

/// Largest extent a single dispatch dimension may have.
pub const MAX_DISPATCH_SIZE: u32 = 65535;

/// Number of shader invocations per workgroup for element-wise kernels.
pub const WORKGROUP_SIZE: u32 = 64;

/// Upper bound kept on a single dispatch's workload estimate so that summing
/// estimates over a command buffer cannot overflow a `u64`.
pub const MAX_WORKLOAD_ESTIMATE: u64 = 0x4000_0000_0000_0000;

/// Largest byte size a single logical buffer may request (a device limit).
pub const MAX_BUFFER_SIZE: u64 = 0x1000_0000_0000;

/// Data types the compute kernels operate on.
#[derive(Clone, Copy, Debug, PartialEq, Eq, Structural)]
pub enum DType {
    U8,
    U32,
    F32,
}

/// Data types a host tensor may carry; only some of them are supported by
/// the compute kernels.
#[derive(Clone, Copy, Debug, PartialEq, Eq, Structural)]
pub enum HostDType {
    U8,
    U32,
    I64,
    BF16,
    F16,
    F32,
    F64,
}

/// Errors surfaced at the op-encoder boundary.
#[derive(Clone, Copy, Debug, PartialEq, Eq, Structural)]
pub enum Error {
    /// An op encoder was called with a dtype no kernel exists for.
    UnsupportedDType,
}

/// Which kernel dtype, if any, serves a host dtype.
pub open spec fn dtype_of(dtype: HostDType) -> Option<DType> {
    match dtype {
        HostDType::U8 => Some(DType::U8),
        HostDType::U32 => Some(DType::U32),
        HostDType::F32 => Some(DType::F32),
        _ => None,
    }
}

/// Maps a host dtype to the kernel dtype that serves it; unsupported dtypes
/// fail here, at the op-encoder entry.
pub fn get_dtype(dtype: HostDType) -> (r: Result<DType, Error>)
    ensures
        match r {
            Ok(d) => dtype_of(dtype) == Some(d),
            Err(e) => dtype_of(dtype) is None && e == Error::UnsupportedDType,
        },
{
    match dtype {
        HostDType::U8 => Ok(DType::U8),
        HostDType::U32 => Ok(DType::U32),
        HostDType::F32 => Ok(DType::F32),
        _ => Err(Error::UnsupportedDType),
    }
}

/// The least multiple of `aw` at or beyond `len`.
pub open spec fn align_up_spec(len: int, aw: int) -> int {
    if len % aw == 0 {
        len
    } else {
        len + aw - len % aw
    }
}

/// The next multiple of `n` that is `>= value`.
pub fn next_divisible_by_n(value: u32, n: u32) -> (r: u32)
    requires
        n > 0,
        value + n - 1 <= u32::MAX,
    ensures
        r % n == 0,
        r >= value,
        r < value + n,
        r == align_up_spec(value as int, n as int),
{
    if value % n == 0 {
        value
    } else {
        proof {
            let q = value as int / n as int;
            let m = value as int % n as int;
            vstd::arithmetic::div_mod::lemma_fundamental_div_mod(value as int, n as int);
            assert(value as int + (n as int - m) == (q + 1) * n as int) by (nonlinear_arith)
                requires
                    value as int == n as int * q + m,
            ;
            vstd::arithmetic::div_mod::lemma_mod_multiples_basic(q + 1, n as int);
        }
        value + (n - value % n)
    }
}

/// `x` clamped from below to 1; used to bound partial products.
pub open spec fn at_least_one(x: int) -> int {
    if x < 1 {
        1
    } else {
        x
    }
}

/// Saturating addition on byte counts.
pub open spec fn sat_add_spec(a: u64, b: u64) -> u64 {
    if a + b <= u64::MAX {
        (a + b) as u64
    } else {
        u64::MAX
    }
}

/// Saturating subtraction on byte counts.
pub open spec fn sat_sub_spec(a: u64, b: u64) -> u64 {
    if a >= b {
        (a - b) as u64
    } else {
        0
    }
}

pub fn sat_add(a: u64, b: u64) -> (r: u64)
    ensures
        r == sat_add_spec(a, b),
{
    if a <= u64::MAX - b {
        a + b
    } else {
        u64::MAX
    }
}

pub fn sat_sub(a: u64, b: u64) -> (r: u64)
    ensures
        r == sat_sub_spec(a, b),
{
    if a >= b {
        a - b
    } else {
        0
    }
}

} // verus!
