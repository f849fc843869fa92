//! Identity of a specialized compute pipeline: the kernel entry point keyed
//! by op family and dtype, the specialization constants it was compiled
//! with, and the planner's in-place hints.

use vstd::prelude::*;

verus! {

use crate::DType;
use crate::meta::ToU32;

#[derive(Clone, Copy, Debug, PartialEq, Eq, Structural)]
pub enum UnaryFunctions {
    UnaryFromBuffer,
    UnaryFromBufferContiguous,
    UnaryInplaceContiguous,
}

#[derive(Clone, Copy, Debug, PartialEq, Eq, Structural)]
pub enum BinaryFunctions {
    BinaryBufferFromBuffer,
    BinaryBufferFromBufferContiguousBoth,
    BinaryBufferInplace1ContiguousBoth,
    BinaryBufferInplace2ContiguousBoth,
}

#[derive(Clone, Copy, Debug, PartialEq, Eq, Structural)]
pub enum CopyFunctions {
    CopyBuffer,
    CopyStrided,
}

#[derive(Clone, Copy, Debug, PartialEq, Eq, Structural)]
pub enum ConvertFunctions {
    ConvertU32ToF32,
    ConvertU8ToF32,
    ConvertF32ToU32,
    ConvertU32ToU8,
    ConvertF32ToU8,
}

#[derive(Clone, Copy, Debug, PartialEq, Eq, Structural)]
pub enum Conv2dFunctions {
    Conv2d,
    Conv2dTranspose,
}

#[derive(Clone, Copy, Debug, PartialEq, Eq, Structural)]
pub enum Conv1dFunctions {
    Conv1d,
    Conv1dTranspose,
}

/// A kernel entry point, keyed by op family and dtype.
#[derive(Clone, Copy, Debug, PartialEq, Eq, Structural)]
pub enum Pipelines {
    Unary(DType, UnaryFunctions),
    Binary(DType, BinaryFunctions),
    CopyOp(DType, CopyFunctions),
    Convert(DType, ConvertFunctions),
    Conv2d(DType, Conv2dFunctions),
    Conv1d(DType, Conv1dFunctions),
}

/// Hints set by an op encoder: which inputs the flush planner may overwrite
/// in place when they are no longer referenced elsewhere.
#[derive(Clone, Copy, Debug, PartialEq, Eq, Structural)]
pub struct OpIsInplaceable {
    pub input1_inplaceable: bool,
    pub input2_inplaceable: bool,
}

impl OpIsInplaceable {
    pub fn new() -> (r: OpIsInplaceable)
        ensures
            !r.input1_inplaceable,
            !r.input2_inplaceable,
    {
        OpIsInplaceable { input1_inplaceable: false, input2_inplaceable: false }
    }
}

/// A specialized pipeline: kernel entry point, index of its constant array
/// in the queue's const table, and in-place hints. Two pipeline types are
/// equal exactly when all three parts match.
#[derive(Clone, Copy, Debug, PartialEq, Eq, Structural)]
pub struct PipelineType(pub Pipelines, pub usize, pub OpIsInplaceable);

/// Capacity of a constant array.
pub const CONST_ARRAY_CAPACITY: usize = 32;

/// Small fixed-capacity list of (constant id, value) pairs used as shader
/// specialization constants.
#[derive(Debug)]
pub struct ConstArray(pub Vec<(u32, u32)>);

impl ConstArray {
    pub open spec fn wf(&self) -> bool {
        self.0@.len() <= CONST_ARRAY_CAPACITY
    }

    pub fn new() -> (r: ConstArray)
        ensures
            r.0@ == Seq::<(u32, u32)>::empty(),
            r.wf(),
    {
        let r = ConstArray(Vec::new());
        proof {
            assert(r.0@ =~= Seq::<(u32, u32)>::empty());
        }
        r
    }

    /// Appends the constants of one parameter.
    pub fn add<T: KernelParameterConsts>(&mut self, value: T)
        requires
            old(self).0@.len() + value.const_entries().len() <= CONST_ARRAY_CAPACITY,
        ensures
            final(self).0@ == old(self).0@ + value.const_entries(),
    {
        value.write_consts(self);
    }

    /// Appends one (constant id, value) pair.
    pub fn insert<T: ToU32>(&mut self, key: u32, value: T)
        requires
            old(self).0@.len() < CONST_ARRAY_CAPACITY,
        ensures
            final(self).0@ == old(self).0@.push((key, value.to_u32_spec())),
            final(self).wf(),
    {
        let v = value.to_u32();
        self.0.push((key, v));
    }
}

/// A parameter that contributes shader specialization constants.
pub trait KernelParameterConsts {
    spec fn const_entries(&self) -> Seq<(u32, u32)>;

    fn write_consts(&self, consts: &mut ConstArray)
        requires
            old(consts).0@.len() + self.const_entries().len() <= CONST_ARRAY_CAPACITY,
        ensures
            final(consts).0@ == old(consts).0@ + self.const_entries(),
    ;
}

/// A parameter that contributes both metadata words and constants.
pub trait KernelParameter: crate::meta::KernelParameterMeta + KernelParameterConsts {

}

impl KernelParameterConsts for u32 {
    open spec fn const_entries(&self) -> Seq<(u32, u32)> {
        Seq::empty()
    }

    fn write_consts(&self, consts: &mut ConstArray) {
        proof {
            assert(consts.0@ =~= old(consts).0@ + self.const_entries());
        }
    }
}

impl KernelParameter for u32 {

}

/// Whether two constant arrays hold the same pairs in the same order.
pub fn const_arrays_equal(a: &ConstArray, b: &ConstArray) -> (r: bool)
    ensures
        r == (a.0@ == b.0@),
{
    if a.0.len() != b.0.len() {
        return false;
    }
    let n = a.0.len();
    let mut i: usize = 0;
    while i < n
        invariant
            0 <= i <= n,
            n == a.0@.len(),
            n == b.0@.len(),
            forall|k: int| 0 <= k < i ==> a.0@[k] == b.0@[k],
        decreases n - i,
    {
        let (ka, va) = a.0[i];
        let (kb, vb) = b.0[i];
        if ka != kb || va != vb {
            return false;
        }
        i += 1;
    }
    proof {
        assert(a.0@ =~= b.0@);
    }
    true
}

/// A stable numeric code for a pipeline key, used to fold the queue's
/// pipeline sequence into a buffer-mapping signature.
pub open spec fn dtype_code(d: DType) -> int {
    match d {
        DType::U8 => 0,
        DType::U32 => 1,
        DType::F32 => 2,
    }
}

pub open spec fn pipeline_code_spec(p: Pipelines) -> int {
    match p {
        Pipelines::Unary(d, f) => 100 + 10 * dtype_code(d) + match f {
            UnaryFunctions::UnaryFromBuffer => 0int,
            UnaryFunctions::UnaryFromBufferContiguous => 1int,
            UnaryFunctions::UnaryInplaceContiguous => 2int,
        },
        Pipelines::Binary(d, f) => 200 + 10 * dtype_code(d) + match f {
            BinaryFunctions::BinaryBufferFromBuffer => 0int,
            BinaryFunctions::BinaryBufferFromBufferContiguousBoth => 1int,
            BinaryFunctions::BinaryBufferInplace1ContiguousBoth => 2int,
            BinaryFunctions::BinaryBufferInplace2ContiguousBoth => 3int,
        },
        Pipelines::CopyOp(d, f) => 300 + 10 * dtype_code(d) + match f {
            CopyFunctions::CopyBuffer => 0int,
            CopyFunctions::CopyStrided => 1int,
        },
        Pipelines::Convert(d, f) => 400 + 10 * dtype_code(d) + match f {
            ConvertFunctions::ConvertU32ToF32 => 0int,
            ConvertFunctions::ConvertU8ToF32 => 1int,
            ConvertFunctions::ConvertF32ToU32 => 2int,
            ConvertFunctions::ConvertU32ToU8 => 3int,
            ConvertFunctions::ConvertF32ToU8 => 4int,
        },
        Pipelines::Conv2d(d, f) => 500 + 10 * dtype_code(d) + match f {
            Conv2dFunctions::Conv2d => 0int,
            Conv2dFunctions::Conv2dTranspose => 1int,
        },
        Pipelines::Conv1d(d, f) => 600 + 10 * dtype_code(d) + match f {
            Conv1dFunctions::Conv1d => 0int,
            Conv1dFunctions::Conv1dTranspose => 1int,
        },
    }
}

pub fn pipeline_code(p: &Pipelines) -> (r: u64)
    ensures
        r == pipeline_code_spec(*p),
{
    let d = match p {
        Pipelines::Unary(d, _) => d,
        Pipelines::Binary(d, _) => d,
        Pipelines::CopyOp(d, _) => d,
        Pipelines::Convert(d, _) => d,
        Pipelines::Conv2d(d, _) => d,
        Pipelines::Conv1d(d, _) => d,
    };
    let dc: u64 = match d {
        DType::U8 => 0,
        DType::U32 => 1,
        DType::F32 => 2,
    };
    let base: u64 = match p {
        Pipelines::Unary(_, f) => 100 + match f {
            UnaryFunctions::UnaryFromBuffer => 0,
            UnaryFunctions::UnaryFromBufferContiguous => 1,
            UnaryFunctions::UnaryInplaceContiguous => 2,
        },
        Pipelines::Binary(_, f) => 200 + match f {
            BinaryFunctions::BinaryBufferFromBuffer => 0,
            BinaryFunctions::BinaryBufferFromBufferContiguousBoth => 1,
            BinaryFunctions::BinaryBufferInplace1ContiguousBoth => 2,
            BinaryFunctions::BinaryBufferInplace2ContiguousBoth => 3,
        },
        Pipelines::CopyOp(_, f) => 300 + match f {
            CopyFunctions::CopyBuffer => 0,
            CopyFunctions::CopyStrided => 1,
        },
        Pipelines::Convert(_, f) => 400 + match f {
            ConvertFunctions::ConvertU32ToF32 => 0,
            ConvertFunctions::ConvertU8ToF32 => 1,
            ConvertFunctions::ConvertF32ToU32 => 2,
            ConvertFunctions::ConvertU32ToU8 => 3,
            ConvertFunctions::ConvertF32ToU8 => 4,
        },
        Pipelines::Conv2d(_, f) => 500 + match f {
            Conv2dFunctions::Conv2d => 0,
            Conv2dFunctions::Conv2dTranspose => 1,
        },
        Pipelines::Conv1d(_, f) => 600 + match f {
            Conv1dFunctions::Conv1d => 0,
            Conv1dFunctions::Conv1dTranspose => 1,
        },
    };
    base + 10 * dc
}

/// In-place hints of an op that allows none.
pub open spec fn no_inplace() -> OpIsInplaceable {
    OpIsInplaceable { input1_inplaceable: false, input2_inplaceable: false }
}

/// In-place hints of an op whose first input may be overwritten.
pub open spec fn inplace_first() -> OpIsInplaceable {
    OpIsInplaceable { input1_inplaceable: true, input2_inplaceable: false }
}

/// In-place hints of an op where either input may be overwritten.
pub open spec fn inplace_both() -> OpIsInplaceable {
    OpIsInplaceable { input1_inplaceable: true, input2_inplaceable: true }
}

} // verus!
