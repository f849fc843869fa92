//! Op encoders for the convolution family. Each encoder packs its
//! parameter schema into the metadata buffer, specializes the pipeline by
//! the constants the shader unrolls over, and tiles the output into
//! workgroups: 16 by 16 by `c_out` for the 2-D forms, 64 by `c_out` for
//! the 1-D forms. A 2-D convolution whose input is strided in its
//! innermost dimension first copies the input to a contiguous transient
//! buffer when the problem is large enough for the copy to pay off.

use vstd::prelude::*;

verus! {

use crate::{Error, HostDType, MAX_WORKLOAD_ESTIMATE, at_least_one, dtype_of, get_dtype};
use crate::bindgroup::{BindGroupReference, create_bind_group_input2};
use crate::copy::queue_copy_strided;
use crate::layout::{Layout, seq_product};
use crate::pipeline::{Conv1dFunctions, Conv2dFunctions, Pipelines, no_inplace};
use crate::queue::{
    WgpuDevice,
    encoded_one,
    encoder_ready,
    enqueue_workgroups,
    get_meta,
    next_meta_offset,
    padded,
    ref_usable,
};

/// Parameters of a 2-D convolution.
#[derive(Clone, Copy, Debug)]
pub struct ParamsConv2D {
    pub b_size: u32,
    pub c_in: u32,
    pub c_out: u32,
    pub i_h: u32,
    pub i_w: u32,
    pub k_h: u32,
    pub k_w: u32,
    pub padding: u32,
    pub stride: u32,
    pub dilation: u32,
}

/// Parameters of a transposed 2-D convolution.
#[derive(Clone, Copy, Debug)]
pub struct ParamsConvTranspose2D {
    pub b_size: u32,
    pub c_in: u32,
    pub c_out: u32,
    pub i_h: u32,
    pub i_w: u32,
    pub k_h: u32,
    pub k_w: u32,
    pub padding: u32,
    pub output_padding: u32,
    pub stride: u32,
    pub dilation: u32,
}

/// Parameters of a 1-D convolution.
#[derive(Clone, Copy, Debug)]
pub struct ParamsConv1D {
    pub b_size: u32,
    pub c_in: u32,
    pub c_out: u32,
    pub l_in: u32,
    pub k_size: u32,
    pub padding: u32,
    pub stride: u32,
    pub dilation: u32,
}

/// Parameters of a transposed 1-D convolution.
#[derive(Clone, Copy, Debug)]
pub struct ParamsConvTranspose1D {
    pub b_size: u32,
    pub c_in: u32,
    pub c_out: u32,
    pub l_in: u32,
    pub k_size: u32,
    pub padding: u32,
    pub output_padding: u32,
    pub stride: u32,
    pub dilation: u32,
}

/// One output extent of a direct convolution over an input extent.
pub open spec fn conv_out_spec(i: int, k: int, padding: int, stride: int, dilation: int) -> int {
    (i + 2 * padding - dilation * (k - 1) - 1) / stride + 1
}

/// One output extent of a transposed convolution over an input extent.
pub open spec fn conv_transpose_out_spec(
    i: int,
    k: int,
    padding: int,
    output_padding: int,
    stride: int,
    dilation: int,
) -> int {
    (i - 1) * stride + dilation * (k - 1) + output_padding + 1 - 2 * padding
}

impl ParamsConv2D {
    /// The parameter values make sense and no output extent computation
    /// can underflow.
    pub open spec fn ok(&self) -> bool {
        &&& self.stride >= 1
        &&& self.dilation >= 1
        &&& self.k_w >= 1
        &&& self.k_h >= 1
        &&& self.i_w + 2 * self.padding >= self.dilation * (self.k_w - 1) + 1
        &&& self.i_h + 2 * self.padding >= self.dilation * (self.k_h - 1) + 1
    }

    pub open spec fn out_w_spec(&self) -> int {
        conv_out_spec(
            self.i_w as int,
            self.k_w as int,
            self.padding as int,
            self.stride as int,
            self.dilation as int,
        )
    }

    pub open spec fn out_h_spec(&self) -> int {
        conv_out_spec(
            self.i_h as int,
            self.k_h as int,
            self.padding as int,
            self.stride as int,
            self.dilation as int,
        )
    }

    pub fn out_w(&self) -> (r: u32)
        requires
            self.ok(),
            self.out_w_spec() <= u32::MAX,
        ensures
            r == self.out_w_spec(),
    {
        let num = self.i_w as u64 + 2 * (self.padding as u64) - (self.dilation as u64) * (self.k_w
            as u64 - 1) - 1;
        (num / (self.stride as u64) + 1) as u32
    }

    pub fn out_h(&self) -> (r: u32)
        requires
            self.ok(),
            self.out_h_spec() <= u32::MAX,
        ensures
            r == self.out_h_spec(),
    {
        let num = self.i_h as u64 + 2 * (self.padding as u64) - (self.dilation as u64) * (self.k_h
            as u64 - 1) - 1;
        (num / (self.stride as u64) + 1) as u32
    }
}

impl ParamsConvTranspose2D {
    pub open spec fn ok(&self) -> bool {
        &&& self.stride >= 1
        &&& self.dilation >= 1
        &&& self.k_w >= 1
        &&& self.k_h >= 1
        &&& self.i_w >= 1
        &&& self.i_h >= 1
        &&& (self.i_w - 1) * self.stride + self.dilation * (self.k_w - 1) + self.output_padding + 1
            >= 2 * self.padding
        &&& (self.i_h - 1) * self.stride + self.dilation * (self.k_h - 1) + self.output_padding + 1
            >= 2 * self.padding
    }

    pub open spec fn out_w_spec(&self) -> int {
        conv_transpose_out_spec(
            self.i_w as int,
            self.k_w as int,
            self.padding as int,
            self.output_padding as int,
            self.stride as int,
            self.dilation as int,
        )
    }

    pub open spec fn out_h_spec(&self) -> int {
        conv_transpose_out_spec(
            self.i_h as int,
            self.k_h as int,
            self.padding as int,
            self.output_padding as int,
            self.stride as int,
            self.dilation as int,
        )
    }

    pub fn out_w(&self) -> (r: u32)
        requires
            self.ok(),
            self.out_w_spec() <= u32::MAX,
        ensures
            r == self.out_w_spec(),
    {
        ((self.i_w as u64 - 1) * (self.stride as u64) + (self.dilation as u64) * (self.k_w as u64
            - 1) + self.output_padding as u64 + 1 - 2 * (self.padding as u64)) as u32
    }

    pub fn out_h(&self) -> (r: u32)
        requires
            self.ok(),
            self.out_h_spec() <= u32::MAX,
        ensures
            r == self.out_h_spec(),
    {
        ((self.i_h as u64 - 1) * (self.stride as u64) + (self.dilation as u64) * (self.k_h as u64
            - 1) + self.output_padding as u64 + 1 - 2 * (self.padding as u64)) as u32
    }
}

impl ParamsConv1D {
    pub open spec fn ok(&self) -> bool {
        &&& self.stride >= 1
        &&& self.dilation >= 1
        &&& self.k_size >= 1
        &&& self.l_in + 2 * self.padding >= self.dilation * (self.k_size - 1) + 1
    }

    pub open spec fn l_out_spec(&self) -> int {
        conv_out_spec(
            self.l_in as int,
            self.k_size as int,
            self.padding as int,
            self.stride as int,
            self.dilation as int,
        )
    }

    pub fn l_out(&self) -> (r: u32)
        requires
            self.ok(),
            self.l_out_spec() <= u32::MAX,
        ensures
            r == self.l_out_spec(),
    {
        let num = self.l_in as u64 + 2 * (self.padding as u64) - (self.dilation as u64)
            * (self.k_size as u64 - 1) - 1;
        (num / (self.stride as u64) + 1) as u32
    }
}

impl ParamsConvTranspose1D {
    pub open spec fn ok(&self) -> bool {
        &&& self.stride >= 1
        &&& self.dilation >= 1
        &&& self.k_size >= 1
        &&& self.l_in >= 1
        &&& (self.l_in - 1) * self.stride + self.dilation * (self.k_size - 1)
            + self.output_padding + 1 >= 2 * self.padding
    }

    pub open spec fn l_out_spec(&self) -> int {
        conv_transpose_out_spec(
            self.l_in as int,
            self.k_size as int,
            self.padding as int,
            self.output_padding as int,
            self.stride as int,
            self.dilation as int,
        )
    }

    pub fn l_out(&self) -> (r: u32)
        requires
            self.ok(),
            self.l_out_spec() <= u32::MAX,
        ensures
            r == self.l_out_spec(),
    {
        ((self.l_in as u64 - 1) * (self.stride as u64) + (self.dilation as u64) * (self.k_size
            as u64 - 1) + self.output_padding as u64 + 1 - 2 * (self.padding as u64)) as u32
    }
}

/// The workload estimate of a convolution: total output elements times the
/// kernel footprint, as a five-way product.
pub open spec fn workload5_spec(a: u64, b: u64, c: u64, d: u64, e: u64) -> int {
    a * b * c * d * e
}

/// The clamped five-way product, which bounds every partial product.
pub open spec fn workload5_clamped(a: u64, b: u64, c: u64, d: u64, e: u64) -> int {
    at_least_one(a as int) * at_least_one(b as int) * at_least_one(c as int) * at_least_one(
        d as int,
    ) * at_least_one(e as int)
}

/// Multiplies the five workload factors, guarded against overflow by the
/// clamped product bound.
pub fn workload5(a: u64, b: u64, c: u64, d: u64, e: u64) -> (r: u64)
    requires
        workload5_clamped(a, b, c, d, e) <= MAX_WORKLOAD_ESTIMATE,
    ensures
        r == workload5_spec(a, b, c, d, e),
        r <= MAX_WORKLOAD_ESTIMATE,
{
    proof {
        let ma = at_least_one(a as int);
        let mb = at_least_one(b as int);
        let mc = at_least_one(c as int);
        let md = at_least_one(d as int);
        let me = at_least_one(e as int);
        assert(a * b <= ma * mb && ma * mb * mc * md * me >= ma * mb && a * b * c <= ma * mb * mc
            && ma * mb * mc * md * me >= ma * mb * mc && a * b * c * d <= ma * mb * mc * md && ma
            * mb * mc * md * me >= ma * mb * mc * md && a * b * c * d * e <= ma * mb * mc * md * me
            && a * b >= 0 && a * b * c >= 0 && a * b * c * d >= 0 && a * b * c * d * e >= 0)
            by (nonlinear_arith)
            requires
                0 <= a <= ma,
                0 <= b <= mb,
                0 <= c <= mc,
                0 <= d <= md,
                0 <= e <= me,
                1 <= ma,
                1 <= mb,
                1 <= mc,
                1 <= md,
                1 <= me,
        ;
    }
    a * b * c * d * e
}

/// The specialization constants of a 2-D convolution pipeline, in order:
/// kernel x-stride, input x-stride, dilation, kernel width and height,
/// batch size, input channels.
pub open spec fn conv2d_const_vec(p: ParamsConv2D, kernel_stride_x: u32, input_stride_x: u32) -> Seq<
    u32,
> {
    seq![kernel_stride_x, input_stride_x, p.dilation, p.k_w, p.k_h, p.b_size, p.c_in]
}

/// The metadata record of a 2-D convolution dispatch, in the order the
/// shader reads it.
pub open spec fn conv2d_meta_words(
    p: ParamsConv2D,
    in_off: u32,
    is0: u32,
    is1: u32,
    is2: u32,
    k_off: u32,
    ks0: u32,
    ks1: u32,
    ks2: u32,
) -> Seq<u32> {
    seq![
        in_off,
        ks2,
        ks1,
        ks0,
        k_off,
        p.i_w,
        p.i_h,
        (p.out_w_spec() * p.out_h_spec() * p.c_out) as u32,
        (p.out_w_spec() * p.out_h_spec()) as u32,
        p.out_w_spec() as u32,
        p.out_h_spec() as u32,
        is0,
        is1,
        is2,
        p.padding,
        p.stride,
    ]
}

/// The workload estimate of a 2-D convolution.
pub open spec fn conv2d_workload(p: ParamsConv2D, kernel_shape: Seq<u32>) -> int {
    p.out_w_spec() * p.out_h_spec() * p.c_out * p.b_size * seq_product(kernel_shape)
}

/// The bounds a 2-D convolution must respect before it can be encoded:
/// output extents that tile into the dispatch limit, metadata words that
/// fit 32 bits, and a workload estimate that fits its bound.
pub open spec fn conv2d_bounds_ok(p: ParamsConv2D, kernel_shape: Seq<u32>) -> bool {
    &&& p.ok()
    &&& 0 <= p.out_w_spec() <= u32::MAX
    &&& 0 <= p.out_h_spec() <= u32::MAX
    &&& (p.out_w_spec() + 15) / 16 <= 65535
    &&& (p.out_h_spec() + 15) / 16 <= 65535
    &&& p.c_out <= 65535
    &&& p.out_w_spec() * p.out_h_spec() <= u32::MAX
    &&& p.out_w_spec() * p.out_h_spec() * p.c_out <= u32::MAX
    &&& at_least_one(p.out_w_spec()) * at_least_one(p.out_h_spec()) * at_least_one(p.c_out as int)
        * at_least_one(p.b_size as int) * crate::layout::seq_product_clamped(kernel_shape)
        <= MAX_WORKLOAD_ESTIMATE
}

/// Encodes one 2-D convolution dispatch over the given input layout (the
/// caller has already decided whether the input needed a contiguous copy).
fn queue_conv2d_with_layout(
    dev: &mut WgpuDevice,
    buffer_dest: usize,
    input_buffer: usize,
    buffer_input2: usize,
    dt: crate::DType,
    params: &ParamsConv2D,
    input_layout: &Layout,
    kernel_layout: &Layout,
)
    requires
        encoder_ready(*old(dev)),
        ref_usable(*old(dev), buffer_dest),
        ref_usable(*old(dev), input_buffer),
        ref_usable(*old(dev), buffer_input2),
        input_layout.wf(),
        input_layout.rank() == 4,
        kernel_layout.wf(),
        kernel_layout.rank() == 4,
        kernel_layout.counts_fit(),
        conv2d_bounds_ok(*params, kernel_layout.shape@),
    ensures
        encoded_one(
            *old(dev),
            *final(dev),
            Pipelines::Conv2d(dt, Conv2dFunctions::Conv2d),
            no_inplace(),
            BindGroupReference::Bindgroup2(buffer_dest, input_buffer, buffer_input2, false),
            ((params.out_w_spec() + 15) / 16) as u32,
            ((params.out_h_spec() + 15) / 16) as u32,
            params.c_out,
            conv2d_workload(*params, kernel_layout.shape@) as u64,
            conv2d_meta_words(
                *params,
                input_layout.start_offset,
                input_layout.stride@[0],
                input_layout.stride@[1],
                input_layout.stride@[2],
                kernel_layout.start_offset,
                kernel_layout.stride@[0],
                kernel_layout.stride@[1],
                kernel_layout.stride@[2],
            ),
            conv2d_const_vec(*params, kernel_layout.stride@[3], input_layout.stride@[3]),
        ),
{
    let ow = params.out_w();
    let oh = params.out_h();
    let ke = kernel_layout.elem_count();
    proof {
        crate::layout::lemma_product_bounds(kernel_layout.shape@);
        crate::layout::lemma_clamped_ge_one(kernel_layout.shape@);
        let ma = at_least_one(ow as int);
        let mb = at_least_one(oh as int);
        let mc = at_least_one(params.c_out as int);
        let md = at_least_one(params.b_size as int);
        let me = at_least_one(ke as int);
        let kc = crate::layout::seq_product_clamped(kernel_layout.shape@);
        assert(ma * mb * mc * md * me <= ma * mb * mc * md * kc) by (nonlinear_arith)
            requires
                1 <= ma,
                1 <= mb,
                1 <= mc,
                1 <= md,
                1 <= me,
                me <= kc,
        ;
    }
    let workload = workload5(ow as u64, oh as u64, params.c_out as u64, params.b_size as u64, ke);
    let mut const_vec: Vec<u32> = Vec::new();
    const_vec.push(kernel_layout.stride[3]);
    const_vec.push(input_layout.stride[3]);
    const_vec.push(params.dilation);
    const_vec.push(params.k_w);
    const_vec.push(params.k_h);
    const_vec.push(params.b_size);
    const_vec.push(params.c_in);
    proof {
        assert(const_vec@ =~= conv2d_const_vec(
            *params,
            kernel_layout.stride@[3],
            input_layout.stride@[3],
        ));
    }
    get_meta(dev);
    proof {
        assert(dev.command_queue.meta.0@ =~= padded(
            old(dev).command_queue.meta.0@,
            next_meta_offset(*old(dev)),
        ));
    }
    let owoh = ((ow as u64) * (oh as u64)) as u32;
    let stride_batch_out = ((owoh as u64) * (params.c_out as u64)) as u32;
    dev.command_queue.meta.add(input_layout.start_offset);
    dev.command_queue.meta.add(kernel_layout.stride[2]);
    dev.command_queue.meta.add(kernel_layout.stride[1]);
    dev.command_queue.meta.add(kernel_layout.stride[0]);
    dev.command_queue.meta.add(kernel_layout.start_offset);
    dev.command_queue.meta.add(params.i_w);
    dev.command_queue.meta.add(params.i_h);
    dev.command_queue.meta.add(stride_batch_out);
    dev.command_queue.meta.add(owoh);
    dev.command_queue.meta.add(ow);
    dev.command_queue.meta.add(oh);
    dev.command_queue.meta.add(input_layout.stride[0]);
    dev.command_queue.meta.add(input_layout.stride[1]);
    dev.command_queue.meta.add(input_layout.stride[2]);
    dev.command_queue.meta.add(params.padding);
    dev.command_queue.meta.add(params.stride);
    proof {
        assert(dev.command_queue.meta.0@ =~= padded(
            old(dev).command_queue.meta.0@,
            next_meta_offset(*old(dev)),
        ) + conv2d_meta_words(
            *params,
            input_layout.start_offset,
            input_layout.stride@[0],
            input_layout.stride@[1],
            input_layout.stride@[2],
            kernel_layout.start_offset,
            kernel_layout.stride@[0],
            kernel_layout.stride@[1],
            kernel_layout.stride@[2],
        ));
    }
    let pipeline = dev.command_queue.get_pipeline_const(
        Pipelines::Conv2d(dt, Conv2dFunctions::Conv2d),
        &const_vec,
    );
    let bind_group = create_bind_group_input2(buffer_dest, input_buffer, buffer_input2);
    enqueue_workgroups(
        dev,
        pipeline,
        bind_group,
        (ow + 15) / 16,
        (oh + 15) / 16,
        params.c_out,
        workload,
    );
}

/// Whether a 2-D convolution first copies its input to a contiguous
/// transient buffer: the innermost input stride is not 1 and the problem
/// is large enough for the copy to pay off.
pub open spec fn conv2d_needs_precopy(p: ParamsConv2D, input_layout: Layout) -> bool {
    &&& input_layout.stride@[3] != 1
    &&& p.c_out > 32
    &&& p.i_h >= 64
    &&& p.i_w >= 64
}

/// What a 2-D convolution with a pre-copy did: a strided copy into a fresh
/// transient buffer reference, then the convolution over the contiguous
/// layout, both appended to the queue in that order.
pub open spec fn conv2d_precopy_post(
    dev0: WgpuDevice,
    dev1: WgpuDevice,
    dt: crate::DType,
    buffer_dest: usize,
    buffer_input1: usize,
    buffer_input2: usize,
    p: ParamsConv2D,
    input_layout: Layout,
    kernel_layout: Layout,
) -> bool {
    let aw = crate::queue::align_words(dev0.device_limits) as int;
    let tmp = dev0.cache.buffer_references@.len() as usize;
    let n0 = dev0.command_queue.command_queue@.len() as int;
    let ds1 = dev1.command_queue.command_queue@;
    let elem = seq_product(input_layout.shape@);
    let cm1 = next_meta_offset(dev0);
    let copy_words = input_layout.meta_words() + seq![0u32];
    let cm2 = crate::align_up_spec(cm1 + copy_words.len(), aw);
    let copy_bg = BindGroupReference::Bindgroup1(tmp, buffer_input1, false);
    let conv_bg = BindGroupReference::Bindgroup2(buffer_dest, tmp, buffer_input2, false);
    let dc = crate::queue::disp(ds1[n0]);
    let q = crate::queue::disp(ds1.last());
    &&& crate::queue::device_wf(dev1)
    &&& crate::queue::meta_tail_tight(dev1.command_queue)
    &&& dev1.device_limits == dev0.device_limits
    &&& ds1.len() == n0 + 2
    &&& forall|i: int| 0 <= i < n0 ==> #[trigger] ds1[i] == dev0.command_queue.command_queue@[i]
    &&& dc.pipeline.0 == Pipelines::CopyOp(dt, crate::pipeline::CopyFunctions::CopyStrided)
    &&& dc.pipeline.2 == no_inplace()
    &&& dc.bindgroup == crate::queue::DispatchedBindgroup::BindgroupReference(copy_bg)
    &&& dc.meta == cm1
    &&& dc.x == crate::queue::big_extents(elem as u32).0
    &&& dc.y == crate::queue::big_extents(elem as u32).1
    &&& dc.z == 1
    &&& dc.workload_size == elem
    &&& q.pipeline.0 == Pipelines::Conv2d(dt, Conv2dFunctions::Conv2d)
    &&& q.pipeline.2 == no_inplace()
    &&& q.bindgroup == crate::queue::DispatchedBindgroup::BindgroupReference(conv_bg)
    &&& q.meta == cm2
    &&& q.x == (p.out_w_spec() + 15) / 16
    &&& q.y == (p.out_h_spec() + 15) / 16
    &&& q.z == p.c_out
    &&& q.workload_size == conv2d_workload(p, kernel_layout.shape@) as u64
    &&& (q.pipeline.1 as int) < dev1.command_queue.id_to_const_array@.len()
    &&& dev1.command_queue.id_to_const_array@[q.pipeline.1 as int].0@
        == crate::queue::const_entries_of(
        conv2d_const_vec(p, kernel_layout.stride@[3], 1),
    )
    &&& dev1.command_queue.meta.0@ == padded(
        padded(dev0.command_queue.meta.0@, cm1) + copy_words,
        cm2,
    ) + conv2d_meta_words(
        p,
        0,
        seq_product(input_layout.shape@.skip(1)) as u32,
        seq_product(input_layout.shape@.skip(2)) as u32,
        seq_product(input_layout.shape@.skip(3)) as u32,
        kernel_layout.start_offset,
        kernel_layout.stride@[0],
        kernel_layout.stride@[1],
        kernel_layout.stride@[2],
    )
    &&& dev1.cache.buffer_references@.len() == dev0.cache.buffer_references@.len() + 1
    &&& dev1.cache.buffer_references@[tmp as int].size == elem * 4
    &&& dev1.cache.buffer_references@[tmp as int].storage is None
    &&& !dev1.cache.buffer_references@[tmp as int].is_referenced_by_storage
    &&& dev1.cache.buffer_references@[tmp as int].ref_count == 3
    &&& forall|id: usize|
        (id as int) < dev0.cache.n_refs() ==> crate::queue::ref_retained(
            #[trigger] dev0.cache.buffer_references@[id as int],
            dev1.cache.buffer_references@[id as int],
            crate::queue::occ(crate::bindgroup::bg_members(copy_bg), id)
                + crate::queue::occ(crate::bindgroup::bg_members(conv_bg), id),
        )
    &&& dev1.cache.same_pools(&dev0.cache)
    &&& dev1.command_queue.last_buffer == dev0.command_queue.last_buffer
    &&& forall|k: int|
        0 <= k < dev0.command_queue.id_to_const_array@.len()
            ==> #[trigger] dev1.command_queue.id_to_const_array@[k]
            == dev0.command_queue.id_to_const_array@[k]
}

/// Queues a 2-D convolution of `buffer_input1` by the kernel in
/// `buffer_input2` into `buffer_dest`. An input with a non-unit innermost
/// stride is first copied to a contiguous transient buffer when the
/// problem is large; unsupported dtypes fail before anything is recorded.
#[verifier::rlimit(100)]
pub fn queue_conv2d(
    dev: &mut WgpuDevice,
    buffer_dest: usize,
    buffer_input1: usize,
    buffer_input2: usize,
    dtype: HostDType,
    params: &ParamsConv2D,
    input_layout: &Layout,
    kernel_layout: &Layout,
) -> (r: Result<(), Error>)
    requires
        encoder_ready(*old(dev)),
        old(dev).command_queue.meta.0@.len() + 512 <= u32::MAX,
        ref_usable(*old(dev), buffer_dest),
        ref_usable(*old(dev), buffer_input1),
        ref_usable(*old(dev), buffer_input2),
        old(dev).cache.buffer_references@[buffer_dest as int].ref_count + 8 <= u32::MAX,
        old(dev).cache.buffer_references@[buffer_input1 as int].ref_count + 8 <= u32::MAX,
        old(dev).cache.buffer_references@[buffer_input2 as int].ref_count + 8 <= u32::MAX,
        input_layout.wf(),
        input_layout.rank() == 4,
        crate::layout::seq_product_clamped(input_layout.shape@) <= u32::MAX,
        kernel_layout.wf(),
        kernel_layout.rank() == 4,
        kernel_layout.counts_fit(),
        conv2d_bounds_ok(*params, kernel_layout.shape@),
    ensures
        dtype_of(dtype) is None ==> r == Err::<(), Error>(Error::UnsupportedDType) && *final(dev)
            == *old(dev),
        dtype_of(dtype) is Some && !conv2d_needs_precopy(*params, *input_layout) ==> r is Ok
            && encoded_one(
            *old(dev),
            *final(dev),
            Pipelines::Conv2d(dtype_of(dtype)->Some_0, Conv2dFunctions::Conv2d),
            no_inplace(),
            BindGroupReference::Bindgroup2(buffer_dest, buffer_input1, buffer_input2, false),
            ((params.out_w_spec() + 15) / 16) as u32,
            ((params.out_h_spec() + 15) / 16) as u32,
            params.c_out,
            conv2d_workload(*params, kernel_layout.shape@) as u64,
            conv2d_meta_words(
                *params,
                input_layout.start_offset,
                input_layout.stride@[0],
                input_layout.stride@[1],
                input_layout.stride@[2],
                kernel_layout.start_offset,
                kernel_layout.stride@[0],
                kernel_layout.stride@[1],
                kernel_layout.stride@[2],
            ),
            conv2d_const_vec(*params, kernel_layout.stride@[3], input_layout.stride@[3]),
        ),
        dtype_of(dtype) is Some && conv2d_needs_precopy(*params, *input_layout) ==> r is Ok
            && conv2d_precopy_post(
            *old(dev),
            *final(dev),
            dtype_of(dtype)->Some_0,
            buffer_dest,
            buffer_input1,
            buffer_input2,
            *params,
            *input_layout,
            *kernel_layout,
        ),
{
    let dt = get_dtype(dtype)?;
    let input_stride_x = input_layout.stride[3];
    if input_stride_x != 1 && params.c_out > 32 && params.i_h >= 64 && params.i_w >= 64 {
        proof {
            crate::layout::lemma_product_bounds(input_layout.shape@);
        }
        let elem = input_layout.elem_count();
        let tmp = dev.cache.create_buffer_reference(elem * 4, false);
        proof {
            crate::queue::lemma_queue_wf_more_refs(
                dev.command_queue,
                crate::queue::align_words(dev.device_limits),
                old(dev).cache.n_refs(),
                dev.cache.n_refs(),
            );
        }
        let ghost dev_b = *dev;
        queue_copy_strided(dev, tmp, buffer_input1, dtype, input_layout, 0)?;
        let ghost dev_c = *dev;
        let contiguous_layout = Layout::contiguous(&input_layout.shape);
        proof {
            assert(input_layout.shape@.skip(4) =~= Seq::<u32>::empty());
            let aw = crate::queue::align_words(old(dev).device_limits) as int;
            assert(aw <= 64) by {
                if aw > 64 {
                    vstd::arithmetic::div_mod::lemma_small_mod(64nat, aw as nat);
                }
            }
            vstd::arithmetic::div_mod::lemma_mod_bound(
                old(dev).command_queue.meta.0@.len() as int,
                aw,
            );
            assert(next_meta_offset(*old(dev)) <= old(dev).command_queue.meta.0@.len() + 63);
            assert(dev_c.command_queue.meta.0@.len() == next_meta_offset(*old(dev)) + 11);
            let copy_bg = BindGroupReference::Bindgroup1(tmp, buffer_input1, false);
            let copy_m = crate::bindgroup::bg_members(copy_bg);
            assert(copy_m.len() == 2);
            crate::queue::lemma_occ_le_len(copy_m, buffer_dest);
            crate::queue::lemma_occ_le_len(copy_m, buffer_input2);
            crate::queue::lemma_occ_le_len(copy_m, tmp);
            assert(crate::queue::ref_retained(
                dev_b.cache.buffer_references@[buffer_dest as int],
                dev_c.cache.buffer_references@[buffer_dest as int],
                crate::queue::occ(copy_m, buffer_dest),
            ));
            assert(crate::queue::ref_retained(
                dev_b.cache.buffer_references@[buffer_input2 as int],
                dev_c.cache.buffer_references@[buffer_input2 as int],
                crate::queue::occ(copy_m, buffer_input2),
            ));
            assert(crate::queue::ref_retained(
                dev_b.cache.buffer_references@[tmp as int],
                dev_c.cache.buffer_references@[tmp as int],
                crate::queue::occ(copy_m, tmp),
            ));
        }
        queue_conv2d_with_layout(
            dev,
            buffer_dest,
            tmp,
            buffer_input2,
            dt,
            params,
            &contiguous_layout,
            kernel_layout,
        );
        proof {
            let copy_bg = BindGroupReference::Bindgroup1(tmp, buffer_input1, false);
            let conv_bg = BindGroupReference::Bindgroup2(buffer_dest, tmp, buffer_input2, false);
            assert forall|id: usize|
                (id as int) < old(dev).cache.n_refs() implies crate::queue::ref_retained(
                #[trigger] old(dev).cache.buffer_references@[id as int],
                dev.cache.buffer_references@[id as int],
                crate::queue::occ(crate::bindgroup::bg_members(copy_bg), id)
                    + crate::queue::occ(crate::bindgroup::bg_members(conv_bg), id),
            ) by {
                assert(crate::queue::ref_retained(
                    dev_b.cache.buffer_references@[id as int],
                    dev_c.cache.buffer_references@[id as int],
                    crate::queue::occ(crate::bindgroup::bg_members(copy_bg), id),
                ));
                assert(crate::queue::ref_retained(
                    dev_c.cache.buffer_references@[id as int],
                    dev.cache.buffer_references@[id as int],
                    crate::queue::occ(crate::bindgroup::bg_members(conv_bg), id),
                ));
            }
            assert forall|k: int|
                0 <= k < old(dev).command_queue.id_to_const_array@.len() implies #[trigger] dev
                .command_queue.id_to_const_array@[k]
                == old(dev).command_queue.id_to_const_array@[k] by {
                assert(dev_c.command_queue.id_to_const_array@[k]
                    == dev_b.command_queue.id_to_const_array@[k]);
                assert(dev.command_queue.id_to_const_array@[k]
                    == dev_c.command_queue.id_to_const_array@[k]);
            }
            crate::queue::lemma_occ_seq2(tmp, buffer_input1, tmp);
            crate::queue::lemma_occ_seq3(buffer_dest, tmp, buffer_input2, tmp);
            assert(crate::queue::ref_retained(
                dev_b.cache.buffer_references@[tmp as int],
                dev_c.cache.buffer_references@[tmp as int],
                crate::queue::occ(crate::bindgroup::bg_members(copy_bg), tmp),
            ));
            assert(crate::queue::ref_retained(
                dev_c.cache.buffer_references@[tmp as int],
                dev.cache.buffer_references@[tmp as int],
                crate::queue::occ(crate::bindgroup::bg_members(conv_bg), tmp),
            ));
            assert(dev.command_queue.meta.0@ =~= padded(
                padded(old(dev).command_queue.meta.0@, next_meta_offset(*old(dev)))
                    + (input_layout.meta_words() + seq![0u32]),
                crate::align_up_spec(
                    next_meta_offset(*old(dev)) + input_layout.meta_words().len() + 1,
                    crate::queue::align_words(old(dev).device_limits) as int,
                ),
            ) + conv2d_meta_words(
                *params,
                0,
                seq_product(input_layout.shape@.skip(1)) as u32,
                seq_product(input_layout.shape@.skip(2)) as u32,
                seq_product(input_layout.shape@.skip(3)) as u32,
                kernel_layout.start_offset,
                kernel_layout.stride@[0],
                kernel_layout.stride@[1],
                kernel_layout.stride@[2],
            ));
        }
        Ok(())
    } else {
        queue_conv2d_with_layout(
            dev,
            buffer_dest,
            buffer_input1,
            buffer_input2,
            dt,
            params,
            input_layout,
            kernel_layout,
        );
        Ok(())
    }
}

/// The metadata record of a transposed 2-D convolution dispatch. Note the
/// swapped order of the kernel's batch and channel strides relative to the
/// direct convolution.
pub open spec fn conv2d_transpose_meta_words(
    p: ParamsConvTranspose2D,
    in_off: u32,
    is0: u32,
    is1: u32,
    is2: u32,
    k_off: u32,
    ks0: u32,
    ks1: u32,
    ks2: u32,
) -> Seq<u32> {
    seq![
        in_off,
        ks2,
        ks0,
        ks1,
        k_off,
        p.i_w,
        p.i_h,
        (p.out_w_spec() * p.out_h_spec() * p.c_out) as u32,
        (p.out_w_spec() * p.out_h_spec()) as u32,
        p.out_w_spec() as u32,
        p.out_h_spec() as u32,
        is0,
        is1,
        is2,
        p.padding,
        p.stride,
    ]
}

pub open spec fn conv2d_transpose_const_vec(
    p: ParamsConvTranspose2D,
    kernel_stride_x: u32,
    input_stride_x: u32,
) -> Seq<u32> {
    seq![kernel_stride_x, input_stride_x, p.dilation, p.k_w, p.k_h, p.b_size, p.c_in]
}

pub open spec fn conv2d_transpose_workload(p: ParamsConvTranspose2D, kernel_shape: Seq<u32>) -> int {
    p.out_w_spec() * p.out_h_spec() * p.c_out * p.b_size * seq_product(kernel_shape)
}

/// Bounds for a transposed 2-D convolution; the output padding is
/// validated against the output extents here, at the encoder boundary,
/// because the tiling subtracts it.
pub open spec fn conv2d_transpose_bounds_ok(p: ParamsConvTranspose2D, kernel_shape: Seq<u32>) -> bool {
    &&& p.ok()
    &&& 0 <= p.out_w_spec() <= u32::MAX
    &&& 0 <= p.out_h_spec() <= u32::MAX
    &&& p.out_w_spec() >= p.output_padding
    &&& p.out_h_spec() >= p.output_padding
    &&& (p.out_w_spec() - p.output_padding + 15) / 16 <= 65535
    &&& (p.out_h_spec() - p.output_padding + 15) / 16 <= 65535
    &&& p.c_out <= 65535
    &&& p.out_w_spec() * p.out_h_spec() <= u32::MAX
    &&& p.out_w_spec() * p.out_h_spec() * p.c_out <= u32::MAX
    &&& at_least_one(p.out_w_spec()) * at_least_one(p.out_h_spec()) * at_least_one(p.c_out as int)
        * at_least_one(p.b_size as int) * crate::layout::seq_product_clamped(kernel_shape)
        <= MAX_WORKLOAD_ESTIMATE
}

/// Queues a transposed 2-D convolution of `buffer_input1` by the kernel in
/// `buffer_input2` into `buffer_dest`. Unsupported dtypes fail before
/// anything is recorded.
#[verifier::rlimit(100)]
pub fn queue_conv2d_transpose(
    dev: &mut WgpuDevice,
    buffer_dest: usize,
    buffer_input1: usize,
    buffer_input2: usize,
    dtype: HostDType,
    params: &ParamsConvTranspose2D,
    input_layout: &Layout,
    kernel_layout: &Layout,
) -> (r: Result<(), Error>)
    requires
        encoder_ready(*old(dev)),
        ref_usable(*old(dev), buffer_dest),
        ref_usable(*old(dev), buffer_input1),
        ref_usable(*old(dev), buffer_input2),
        input_layout.wf(),
        input_layout.rank() == 4,
        kernel_layout.wf(),
        kernel_layout.rank() == 4,
        kernel_layout.counts_fit(),
        conv2d_transpose_bounds_ok(*params, kernel_layout.shape@),
    ensures
        dtype_of(dtype) is None ==> r == Err::<(), Error>(Error::UnsupportedDType) && *final(dev)
            == *old(dev),
        dtype_of(dtype) is Some ==> r is Ok && encoded_one(
            *old(dev),
            *final(dev),
            Pipelines::Conv2d(dtype_of(dtype)->Some_0, Conv2dFunctions::Conv2dTranspose),
            no_inplace(),
            BindGroupReference::Bindgroup2(buffer_dest, buffer_input1, buffer_input2, false),
            ((params.out_w_spec() - params.output_padding + 15) / 16) as u32,
            ((params.out_h_spec() - params.output_padding + 15) / 16) as u32,
            params.c_out,
            conv2d_transpose_workload(*params, kernel_layout.shape@) as u64,
            conv2d_transpose_meta_words(
                *params,
                input_layout.start_offset,
                input_layout.stride@[0],
                input_layout.stride@[1],
                input_layout.stride@[2],
                kernel_layout.start_offset,
                kernel_layout.stride@[0],
                kernel_layout.stride@[1],
                kernel_layout.stride@[2],
            ),
            conv2d_transpose_const_vec(
                *params,
                kernel_layout.stride@[3],
                input_layout.stride@[3],
            ),
        ),
{
    let dt = get_dtype(dtype)?;
    let ow = params.out_w();
    let oh = params.out_h();
    let ke = kernel_layout.elem_count();
    proof {
        crate::layout::lemma_product_bounds(kernel_layout.shape@);
        crate::layout::lemma_clamped_ge_one(kernel_layout.shape@);
        let ma = at_least_one(ow as int);
        let mb = at_least_one(oh as int);
        let mc = at_least_one(params.c_out as int);
        let md = at_least_one(params.b_size as int);
        let me = at_least_one(ke as int);
        let kc = crate::layout::seq_product_clamped(kernel_layout.shape@);
        assert(ma * mb * mc * md * me <= ma * mb * mc * md * kc) by (nonlinear_arith)
            requires
                1 <= ma,
                1 <= mb,
                1 <= mc,
                1 <= md,
                1 <= me,
                me <= kc,
        ;
    }
    let workload = workload5(ow as u64, oh as u64, params.c_out as u64, params.b_size as u64, ke);
    let mut const_vec: Vec<u32> = Vec::new();
    const_vec.push(kernel_layout.stride[3]);
    const_vec.push(input_layout.stride[3]);
    const_vec.push(params.dilation);
    const_vec.push(params.k_w);
    const_vec.push(params.k_h);
    const_vec.push(params.b_size);
    const_vec.push(params.c_in);
    proof {
        assert(const_vec@ =~= conv2d_transpose_const_vec(
            *params,
            kernel_layout.stride@[3],
            input_layout.stride@[3],
        ));
    }
    get_meta(dev);
    proof {
        assert(dev.command_queue.meta.0@ =~= padded(
            old(dev).command_queue.meta.0@,
            next_meta_offset(*old(dev)),
        ));
    }
    let owoh = ((ow as u64) * (oh as u64)) as u32;
    let stride_batch_out = ((owoh as u64) * (params.c_out as u64)) as u32;
    dev.command_queue.meta.add(input_layout.start_offset);
    dev.command_queue.meta.add(kernel_layout.stride[2]);
    dev.command_queue.meta.add(kernel_layout.stride[0]);
    dev.command_queue.meta.add(kernel_layout.stride[1]);
    dev.command_queue.meta.add(kernel_layout.start_offset);
    dev.command_queue.meta.add(params.i_w);
    dev.command_queue.meta.add(params.i_h);
    dev.command_queue.meta.add(stride_batch_out);
    dev.command_queue.meta.add(owoh);
    dev.command_queue.meta.add(ow);
    dev.command_queue.meta.add(oh);
    dev.command_queue.meta.add(input_layout.stride[0]);
    dev.command_queue.meta.add(input_layout.stride[1]);
    dev.command_queue.meta.add(input_layout.stride[2]);
    dev.command_queue.meta.add(params.padding);
    dev.command_queue.meta.add(params.stride);
    proof {
        assert(dev.command_queue.meta.0@ =~= padded(
            old(dev).command_queue.meta.0@,
            next_meta_offset(*old(dev)),
        ) + conv2d_transpose_meta_words(
            *params,
            input_layout.start_offset,
            input_layout.stride@[0],
            input_layout.stride@[1],
            input_layout.stride@[2],
            kernel_layout.start_offset,
            kernel_layout.stride@[0],
            kernel_layout.stride@[1],
            kernel_layout.stride@[2],
        ));
    }
    let pipeline = dev.command_queue.get_pipeline_const(
        Pipelines::Conv2d(dt, Conv2dFunctions::Conv2dTranspose),
        &const_vec,
    );
    let bind_group = create_bind_group_input2(buffer_dest, buffer_input1, buffer_input2);
    enqueue_workgroups(
        dev,
        pipeline,
        bind_group,
        (ow - params.output_padding + 15) / 16,
        (oh - params.output_padding + 15) / 16,
        params.c_out,
        workload,
    );
    Ok(())
}

/// The metadata record of a 1-D convolution dispatch.
pub open spec fn queue_conv1d_meta_words(
    p: ParamsConv1D,
    in_off: u32,
    is0: u32,
    is1: u32,
    is2: u32,
    k_off: u32,
    ks0: u32,
    ks1: u32,
    ks2: u32,
) -> Seq<u32> {
    seq![
        p.b_size,
        p.c_in,
        p.k_size,
        ks2,
        ks1,
        ks0,
        k_off,
        p.l_in,
        (p.l_out_spec() * p.c_out) as u32,
        p.l_out_spec() as u32,
        p.l_out_spec() as u32,
        is0,
        is1,
        is2,
        p.padding,
        p.stride,
        p.dilation,
        in_off,
    ]
}

pub open spec fn queue_conv1d_const_vec(
    p: ParamsConv1D,
    kernel_stride_x: u32,
    input_stride_x: u32,
    in_off: u32,
) -> Seq<u32> {
    seq![
        kernel_stride_x,
        input_stride_x,
        p.padding,
        p.stride,
        p.dilation,
        in_off,
        p.k_size,
        p.b_size,
        p.c_in,
    ]
}

pub open spec fn queue_conv1d_workload(p: ParamsConv1D, kernel_shape: Seq<u32>) -> int {
    p.l_out_spec() * p.c_out * p.b_size * seq_product(kernel_shape)
}

pub open spec fn queue_conv1d_bounds_ok(p: ParamsConv1D, kernel_shape: Seq<u32>) -> bool {
    &&& p.ok()
    &&& 0 <= p.l_out_spec() <= u32::MAX
    
    &&& (p.l_out_spec() + 63) / 64 <= 65535
    &&& p.c_out <= 65535
    &&& p.l_out_spec() * p.c_out <= u32::MAX
    &&& at_least_one(p.l_out_spec()) * at_least_one(p.c_out as int) * at_least_one(
        p.b_size as int,
    ) * at_least_one(1) * crate::layout::seq_product_clamped(kernel_shape)
        <= MAX_WORKLOAD_ESTIMATE
}

/// Queues a 1-D convolution of `buffer_input1` by the kernel in
/// `buffer_input2` into `buffer_dest`. Unsupported dtypes fail before
/// anything is recorded.
#[verifier::rlimit(100)]
pub fn queue_conv1d(
    dev: &mut WgpuDevice,
    buffer_dest: usize,
    buffer_input1: usize,
    buffer_input2: usize,
    dtype: HostDType,
    params: &ParamsConv1D,
    input_layout: &Layout,
    kernel_layout: &Layout,
) -> (r: Result<(), Error>)
    requires
        encoder_ready(*old(dev)),
        ref_usable(*old(dev), buffer_dest),
        ref_usable(*old(dev), buffer_input1),
        ref_usable(*old(dev), buffer_input2),
        input_layout.wf(),
        input_layout.rank() == 3,
        kernel_layout.wf(),
        kernel_layout.rank() == 3,
        kernel_layout.counts_fit(),
        queue_conv1d_bounds_ok(*params, kernel_layout.shape@),
    ensures
        dtype_of(dtype) is None ==> r == Err::<(), Error>(Error::UnsupportedDType) && *final(dev)
            == *old(dev),
        dtype_of(dtype) is Some ==> r is Ok && encoded_one(
            *old(dev),
            *final(dev),
            Pipelines::Conv1d(dtype_of(dtype)->Some_0, Conv1dFunctions::Conv1d),
            no_inplace(),
            BindGroupReference::Bindgroup2(buffer_dest, buffer_input1, buffer_input2, false),
            ((params.l_out_spec() + 63) / 64) as u32,
            params.c_out,
            1,
            queue_conv1d_workload(*params, kernel_layout.shape@) as u64,
            queue_conv1d_meta_words(
                *params,
                input_layout.start_offset,
                input_layout.stride@[0],
                input_layout.stride@[1],
                input_layout.stride@[2],
                kernel_layout.start_offset,
                kernel_layout.stride@[0],
                kernel_layout.stride@[1],
                kernel_layout.stride@[2],
            ),
            queue_conv1d_const_vec(
                *params,
                kernel_layout.stride@[2],
                input_layout.stride@[2],
                input_layout.start_offset,
            ),
        ),
{
    let dt = get_dtype(dtype)?;
    let lo = params.l_out();
    let ke = kernel_layout.elem_count();
    proof {
        crate::layout::lemma_product_bounds(kernel_layout.shape@);
        crate::layout::lemma_clamped_ge_one(kernel_layout.shape@);
        let ma = at_least_one(lo as int);
        let mc = at_least_one(params.c_out as int);
        let md = at_least_one(params.b_size as int);
        let me = at_least_one(ke as int);
        let kc = crate::layout::seq_product_clamped(kernel_layout.shape@);
        assert(ma * mc * md * at_least_one(1) * me <= ma * mc * md * at_least_one(1) * kc)
            by (nonlinear_arith)
            requires
                1 <= ma,
                1 <= mc,
                1 <= md,
                1 <= me,
                me <= kc,
        ;
    }
    let workload = workload5(lo as u64, params.c_out as u64, params.b_size as u64, 1, ke);
    let mut const_vec: Vec<u32> = Vec::new();
    const_vec.push(kernel_layout.stride[2]);
    const_vec.push(input_layout.stride[2]);
    const_vec.push(params.padding);
    const_vec.push(params.stride);
    const_vec.push(params.dilation);
    const_vec.push(input_layout.start_offset);
    const_vec.push(params.k_size);
    const_vec.push(params.b_size);
    const_vec.push(params.c_in);
    proof {
        assert(const_vec@ =~= queue_conv1d_const_vec(
            *params,
            kernel_layout.stride@[2],
            input_layout.stride@[2],
            input_layout.start_offset,
        ));
    }
    get_meta(dev);
    proof {
        assert(dev.command_queue.meta.0@ =~= padded(
            old(dev).command_queue.meta.0@,
            next_meta_offset(*old(dev)),
        ));
    }
    let stride_batch_out = ((lo as u64) * (params.c_out as u64)) as u32;
    dev.command_queue.meta.add(params.b_size);
    dev.command_queue.meta.add(params.c_in);
    dev.command_queue.meta.add(params.k_size);
    dev.command_queue.meta.add(kernel_layout.stride[2]);
    dev.command_queue.meta.add(kernel_layout.stride[1]);
    dev.command_queue.meta.add(kernel_layout.stride[0]);
    dev.command_queue.meta.add(kernel_layout.start_offset);
    dev.command_queue.meta.add(params.l_in);
    dev.command_queue.meta.add(stride_batch_out);
    dev.command_queue.meta.add(lo);
    dev.command_queue.meta.add(lo);
    dev.command_queue.meta.add(input_layout.stride[0]);
    dev.command_queue.meta.add(input_layout.stride[1]);
    dev.command_queue.meta.add(input_layout.stride[2]);
    dev.command_queue.meta.add(params.padding);
    dev.command_queue.meta.add(params.stride);
    dev.command_queue.meta.add(params.dilation);
    dev.command_queue.meta.add(input_layout.start_offset);
    proof {
        assert(dev.command_queue.meta.0@ =~= padded(
            old(dev).command_queue.meta.0@,
            next_meta_offset(*old(dev)),
        ) + queue_conv1d_meta_words(
            *params,
            input_layout.start_offset,
            input_layout.stride@[0],
            input_layout.stride@[1],
            input_layout.stride@[2],
            kernel_layout.start_offset,
            kernel_layout.stride@[0],
            kernel_layout.stride@[1],
            kernel_layout.stride@[2],
        ));
    }
    let pipeline = dev.command_queue.get_pipeline_const(
        Pipelines::Conv1d(dt, Conv1dFunctions::Conv1d),
        &const_vec,
    );
    let bind_group = create_bind_group_input2(buffer_dest, buffer_input1, buffer_input2);
    enqueue_workgroups(
        dev,
        pipeline,
        bind_group,
        (lo + 63) / 64,
        params.c_out,
        1,
        workload,
    );
    Ok(())
}

/// The metadata record of a transposed 1-D convolution dispatch.
pub open spec fn queue_conv1d_transpose_meta_words(
    p: ParamsConvTranspose1D,
    in_off: u32,
    is0: u32,
    is1: u32,
    is2: u32,
    k_off: u32,
    ks0: u32,
    ks1: u32,
    ks2: u32,
) -> Seq<u32> {
    seq![
        p.b_size,
        p.c_in,
        p.k_size,
        ks2,
        ks0,
        ks1,
        k_off,
        p.l_in,
        (p.l_out_spec() * p.c_out) as u32,
        p.l_out_spec() as u32,
        p.l_out_spec() as u32,
        is0,
        is1,
        is2,
        p.padding,
        p.stride,
        p.dilation,
        in_off,
    ]
}

pub open spec fn queue_conv1d_transpose_const_vec(
    p: ParamsConvTranspose1D,
    kernel_stride_x: u32,
    input_stride_x: u32,
    in_off: u32,
) -> Seq<u32> {
    seq![
        kernel_stride_x,
        input_stride_x,
        p.padding,
        p.stride,
        p.dilation,
        in_off,
        p.k_size,
        p.b_size,
        p.c_in,
    ]
}

pub open spec fn queue_conv1d_transpose_workload(p: ParamsConvTranspose1D, kernel_shape: Seq<u32>) -> int {
    p.l_out_spec() * p.c_out * p.b_size * seq_product(kernel_shape)
}

pub open spec fn queue_conv1d_transpose_bounds_ok(p: ParamsConvTranspose1D, kernel_shape: Seq<u32>) -> bool {
    &&& p.ok()
    &&& 0 <= p.l_out_spec() <= u32::MAX
    &&& p.l_out_spec() >= p.output_padding
    &&& (p.l_out_spec() - p.output_padding + 63) / 64 <= 65535
    &&& p.c_out <= 65535
    &&& p.l_out_spec() * p.c_out <= u32::MAX
    &&& at_least_one(p.l_out_spec()) * at_least_one(p.c_out as int) * at_least_one(
        p.b_size as int,
    ) * at_least_one(1) * crate::layout::seq_product_clamped(kernel_shape)
        <= MAX_WORKLOAD_ESTIMATE
}

/// Queues a transposed 1-D convolution of `buffer_input1` by the kernel in
/// `buffer_input2` into `buffer_dest`. Unsupported dtypes fail before
/// anything is recorded.
#[verifier::rlimit(100)]
pub fn queue_conv1d_transpose(
    dev: &mut WgpuDevice,
    buffer_dest: usize,
    buffer_input1: usize,
    buffer_input2: usize,
    dtype: HostDType,
    params: &ParamsConvTranspose1D,
    input_layout: &Layout,
    kernel_layout: &Layout,
) -> (r: Result<(), Error>)
    requires
        encoder_ready(*old(dev)),
        ref_usable(*old(dev), buffer_dest),
        ref_usable(*old(dev), buffer_input1),
        ref_usable(*old(dev), buffer_input2),
        input_layout.wf(),
        input_layout.rank() == 3,
        kernel_layout.wf(),
        kernel_layout.rank() == 3,
        kernel_layout.counts_fit(),
        queue_conv1d_transpose_bounds_ok(*params, kernel_layout.shape@),
    ensures
        dtype_of(dtype) is None ==> r == Err::<(), Error>(Error::UnsupportedDType) && *final(dev)
            == *old(dev),
        dtype_of(dtype) is Some ==> r is Ok && encoded_one(
            *old(dev),
            *final(dev),
            Pipelines::Conv1d(dtype_of(dtype)->Some_0, Conv1dFunctions::Conv1dTranspose),
            no_inplace(),
            BindGroupReference::Bindgroup2(buffer_dest, buffer_input1, buffer_input2, false),
            ((params.l_out_spec() - params.output_padding + 63) / 64) as u32,
            params.c_out,
            1,
            queue_conv1d_transpose_workload(*params, kernel_layout.shape@) as u64,
            queue_conv1d_transpose_meta_words(
                *params,
                input_layout.start_offset,
                input_layout.stride@[0],
                input_layout.stride@[1],
                input_layout.stride@[2],
                kernel_layout.start_offset,
                kernel_layout.stride@[0],
                kernel_layout.stride@[1],
                kernel_layout.stride@[2],
            ),
            queue_conv1d_transpose_const_vec(
                *params,
                kernel_layout.stride@[2],
                input_layout.stride@[2],
                input_layout.start_offset,
            ),
        ),
{
    let dt = get_dtype(dtype)?;
    let lo = params.l_out();
    let ke = kernel_layout.elem_count();
    proof {
        crate::layout::lemma_product_bounds(kernel_layout.shape@);
        crate::layout::lemma_clamped_ge_one(kernel_layout.shape@);
        let ma = at_least_one(lo as int);
        let mc = at_least_one(params.c_out as int);
        let md = at_least_one(params.b_size as int);
        let me = at_least_one(ke as int);
        let kc = crate::layout::seq_product_clamped(kernel_layout.shape@);
        assert(ma * mc * md * at_least_one(1) * me <= ma * mc * md * at_least_one(1) * kc)
            by (nonlinear_arith)
            requires
                1 <= ma,
                1 <= mc,
                1 <= md,
                1 <= me,
                me <= kc,
        ;
    }
    let workload = workload5(lo as u64, params.c_out as u64, params.b_size as u64, 1, ke);
    let mut const_vec: Vec<u32> = Vec::new();
    const_vec.push(kernel_layout.stride[2]);
    const_vec.push(input_layout.stride[2]);
    const_vec.push(params.padding);
    const_vec.push(params.stride);
    const_vec.push(params.dilation);
    const_vec.push(input_layout.start_offset);
    const_vec.push(params.k_size);
    const_vec.push(params.b_size);
    const_vec.push(params.c_in);
    proof {
        assert(const_vec@ =~= queue_conv1d_transpose_const_vec(
            *params,
            kernel_layout.stride@[2],
            input_layout.stride@[2],
            input_layout.start_offset,
        ));
    }
    get_meta(dev);
    proof {
        assert(dev.command_queue.meta.0@ =~= padded(
            old(dev).command_queue.meta.0@,
            next_meta_offset(*old(dev)),
        ));
    }
    let stride_batch_out = ((lo as u64) * (params.c_out as u64)) as u32;
    dev.command_queue.meta.add(params.b_size);
    dev.command_queue.meta.add(params.c_in);
    dev.command_queue.meta.add(params.k_size);
    dev.command_queue.meta.add(kernel_layout.stride[2]);
    dev.command_queue.meta.add(kernel_layout.stride[0]);
    dev.command_queue.meta.add(kernel_layout.stride[1]);
    dev.command_queue.meta.add(kernel_layout.start_offset);
    dev.command_queue.meta.add(params.l_in);
    dev.command_queue.meta.add(stride_batch_out);
    dev.command_queue.meta.add(lo);
    dev.command_queue.meta.add(lo);
    dev.command_queue.meta.add(input_layout.stride[0]);
    dev.command_queue.meta.add(input_layout.stride[1]);
    dev.command_queue.meta.add(input_layout.stride[2]);
    dev.command_queue.meta.add(params.padding);
    dev.command_queue.meta.add(params.stride);
    dev.command_queue.meta.add(params.dilation);
    dev.command_queue.meta.add(input_layout.start_offset);
    proof {
        assert(dev.command_queue.meta.0@ =~= padded(
            old(dev).command_queue.meta.0@,
            next_meta_offset(*old(dev)),
        ) + queue_conv1d_transpose_meta_words(
            *params,
            input_layout.start_offset,
            input_layout.stride@[0],
            input_layout.stride@[1],
            input_layout.stride@[2],
            kernel_layout.start_offset,
            kernel_layout.stride@[0],
            kernel_layout.stride@[1],
            kernel_layout.stride@[2],
        ));
    }
    let pipeline = dev.command_queue.get_pipeline_const(
        Pipelines::Conv1d(dt, Conv1dFunctions::Conv1dTranspose),
        &const_vec,
    );
    let bind_group = create_bind_group_input2(buffer_dest, buffer_input1, buffer_input2);
    enqueue_workgroups(
        dev,
        pipeline,
        bind_group,
        (lo - params.output_padding + 63) / 64,
        params.c_out,
        1,
        workload,
    );
    Ok(())
}

} // verus!
