//! Op encoder for element-wise unary operations. A contiguous input takes
//! the fast contiguous pipeline, which the flush planner may later rewrite
//! to the in-place variant; a strided input carries its full layout.

use vstd::prelude::*;

verus! {

use crate::{Error, HostDType, dtype_of, get_dtype};
use crate::bindgroup::{BindGroupReference, create_bind_group_input1};
use crate::layout::Layout;
use crate::pipeline::{Pipelines, UnaryFunctions, inplace_first, no_inplace};
use crate::queue::{
    WgpuDevice,
    big_extents,
    encoded_one,
    encoder_ready,
    enqueue_big,
    get_meta,
    next_meta_offset,
    padded,
    ref_usable,
};

/// Queues the unary operation `op` over `input_layout`'s elements, read
/// through `buffer_input`, into `buffer_dest`. Unsupported dtypes fail
/// before anything is recorded.
pub fn queue_unary_from_buffer_op(
    dev: &mut WgpuDevice,
    buffer_dest: usize,
    buffer_input: usize,
    op: u32,
    dtype: HostDType,
    input_layout: &Layout,
) -> (r: Result<(), Error>)
    requires
        encoder_ready(*old(dev)),
        ref_usable(*old(dev), buffer_dest),
        ref_usable(*old(dev), buffer_input),
        input_layout.wf(),
        input_layout.counts_fit(),
        input_layout.elem_count_spec() <= u32::MAX,
    ensures
        dtype_of(dtype) is None ==> r == Err::<(), Error>(Error::UnsupportedDType) && *final(dev)
            == *old(dev),
        dtype_of(dtype) is Some ==> r is Ok && {
            let dt = dtype_of(dtype)->Some_0;
            let length = input_layout.elem_count_spec() as u32;
            if input_layout.contiguous_spec() {
                encoded_one(
                    *old(dev),
                    *final(dev),
                    Pipelines::Unary(dt, UnaryFunctions::UnaryFromBufferContiguous),
                    inplace_first(),
                    BindGroupReference::Bindgroup1(buffer_dest, buffer_input, false),
                    big_extents(length).0,
                    big_extents(length).1,
                    1,
                    length as u64,
                    seq![op, length, input_layout.start_offset],
                    Seq::<u32>::empty(),
                )
            } else {
                encoded_one(
                    *old(dev),
                    *final(dev),
                    Pipelines::Unary(dt, UnaryFunctions::UnaryFromBuffer),
                    no_inplace(),
                    BindGroupReference::Bindgroup1(buffer_dest, buffer_input, false),
                    big_extents(length).0,
                    big_extents(length).1,
                    1,
                    length as u64,
                    seq![op] + input_layout.meta_words(),
                    Seq::<u32>::empty(),
                )
            }
        },
{
    let dt = get_dtype(dtype)?;
    let length = input_layout.elem_count() as u32;
    let const_vec: Vec<u32> = Vec::new();
    proof {
        assert(const_vec@ =~= Seq::<u32>::empty());
    }
    get_meta(dev);
    proof {
        assert(dev.command_queue.meta.0@ =~= padded(
            old(dev).command_queue.meta.0@,
            next_meta_offset(*old(dev)),
        ));
    }
    if input_layout.is_contiguous() {
        dev.command_queue.meta.add(op);
        dev.command_queue.meta.add(length);
        dev.command_queue.meta.add(input_layout.start_offset);
        proof {
            assert(dev.command_queue.meta.0@ =~= padded(
                old(dev).command_queue.meta.0@,
                next_meta_offset(*old(dev)),
            ) + seq![op, length, input_layout.start_offset]);
        }
        let mut flags = crate::pipeline::OpIsInplaceable::new();
        flags.input1_inplaceable = true;
        let pipeline = dev.command_queue.get_pipeline_const_inplace(
            Pipelines::Unary(dt, UnaryFunctions::UnaryFromBufferContiguous),
            &const_vec,
            flags,
        );
        let bind_group = create_bind_group_input1(buffer_dest, buffer_input);
        enqueue_big(dev, pipeline, bind_group, length);
    } else {
        dev.command_queue.meta.add(op);
        dev.command_queue.meta.add_layout(input_layout);
        proof {
            assert(dev.command_queue.meta.0@ =~= padded(
                old(dev).command_queue.meta.0@,
                next_meta_offset(*old(dev)),
            ) + (seq![op] + input_layout.meta_words()));
        }
        let pipeline = dev.command_queue.get_pipeline_const(
            Pipelines::Unary(dt, UnaryFunctions::UnaryFromBuffer),
            &const_vec,
        );
        let bind_group = create_bind_group_input1(buffer_dest, buffer_input);
        enqueue_big(dev, pipeline, bind_group, length);
    }
    Ok(())
}

} // verus!
