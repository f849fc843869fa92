//! Op encoder for element-wise binary operations over two inputs of equal
//! element count. When both inputs are contiguous the fast pipeline is
//! taken, and the flush planner may later rewrite it in place over either
//! input; otherwise both layouts are carried in the metadata.

use vstd::prelude::*;

verus! {

use crate::{Error, HostDType, dtype_of, get_dtype};
use crate::bindgroup::{BindGroupReference, create_bind_group_input2};
use crate::layout::Layout;
use crate::pipeline::{BinaryFunctions, Pipelines, inplace_both, no_inplace};
use crate::queue::{
    WgpuDevice,
    big_extents,
    encoded_one,
    encoder_ready,
    enqueue_big,
    get_meta,
    next_meta_offset,
    padded,
    ref_usable,
};

/// Queues the binary operation `op` over the elements of two operands,
/// read through `buffer_input1` and `buffer_input2`, into `buffer_dest`.
/// Unsupported dtypes fail before anything is recorded.
pub fn queue_binary_buffer_from_buffer(
    dev: &mut WgpuDevice,
    buffer_dest: usize,
    buffer_input1: usize,
    buffer_input2: usize,
    op: u32,
    dtype: HostDType,
    layout_input1: &Layout,
    layout_input2: &Layout,
) -> (r: Result<(), Error>)
    requires
        encoder_ready(*old(dev)),
        ref_usable(*old(dev), buffer_dest),
        ref_usable(*old(dev), buffer_input1),
        ref_usable(*old(dev), buffer_input2),
        layout_input1.wf(),
        layout_input1.counts_fit(),
        layout_input2.wf(),
        layout_input2.counts_fit(),
        layout_input1.elem_count_spec() == layout_input2.elem_count_spec(),
        layout_input1.elem_count_spec() <= u32::MAX,
        (layout_input1.contiguous_spec() && layout_input2.contiguous_spec())
            || layout_input1.rank() + layout_input2.rank() <= 29,
    ensures
        dtype_of(dtype) is None ==> r == Err::<(), Error>(Error::UnsupportedDType) && *final(dev)
            == *old(dev),
        dtype_of(dtype) is Some ==> r is Ok && {
            let dt = dtype_of(dtype)->Some_0;
            let length = layout_input1.elem_count_spec() as u32;
            if layout_input1.contiguous_spec() && layout_input2.contiguous_spec() {
                encoded_one(
                    *old(dev),
                    *final(dev),
                    Pipelines::Binary(dt, BinaryFunctions::BinaryBufferFromBufferContiguousBoth),
                    inplace_both(),
                    BindGroupReference::Bindgroup2(
                        buffer_dest,
                        buffer_input1,
                        buffer_input2,
                        false,
                    ),
                    big_extents(length).0,
                    big_extents(length).1,
                    1,
                    length as u64,
                    seq![op, length, layout_input1.start_offset, layout_input2.start_offset],
                    Seq::<u32>::empty(),
                )
            } else {
                encoded_one(
                    *old(dev),
                    *final(dev),
                    Pipelines::Binary(dt, BinaryFunctions::BinaryBufferFromBuffer),
                    no_inplace(),
                    BindGroupReference::Bindgroup2(
                        buffer_dest,
                        buffer_input1,
                        buffer_input2,
                        false,
                    ),
                    big_extents(length).0,
                    big_extents(length).1,
                    1,
                    length as u64,
                    seq![op] + layout_input1.meta_words() + layout_input2.meta_words(),
                    Seq::<u32>::empty(),
                )
            }
        },
{
    let dt = get_dtype(dtype)?;
    let length = layout_input1.elem_count() as u32;
    let const_vec: Vec<u32> = Vec::new();
    proof {
        assert(const_vec@ =~= Seq::<u32>::empty());
    }
    get_meta(dev);
    proof {
        assert(dev.command_queue.meta.0@ =~= padded(
            old(dev).command_queue.meta.0@,
            next_meta_offset(*old(dev)),
        ));
    }
    let contiguous_both = layout_input1.is_contiguous() && layout_input2.is_contiguous();
    if contiguous_both {
        dev.command_queue.meta.add(op);
        dev.command_queue.meta.add(length);
        dev.command_queue.meta.add(layout_input1.start_offset);
        dev.command_queue.meta.add(layout_input2.start_offset);
        proof {
            assert(dev.command_queue.meta.0@ =~= padded(
                old(dev).command_queue.meta.0@,
                next_meta_offset(*old(dev)),
            )
                + seq![
                op,
                length,
                layout_input1.start_offset,
                layout_input2.start_offset,
            ]);
        }
        let mut flags = crate::pipeline::OpIsInplaceable::new();
        flags.input1_inplaceable = true;
        flags.input2_inplaceable = true;
        let pipeline = dev.command_queue.get_pipeline_const_inplace(
            Pipelines::Binary(dt, BinaryFunctions::BinaryBufferFromBufferContiguousBoth),
            &const_vec,
            flags,
        );
        let bind_group = create_bind_group_input2(buffer_dest, buffer_input1, buffer_input2);
        enqueue_big(dev, pipeline, bind_group, length);
    } else {
        dev.command_queue.meta.add(op);
        dev.command_queue.meta.add_layout(layout_input1);
        dev.command_queue.meta.add_layout(layout_input2);
        proof {
            assert(dev.command_queue.meta.0@ =~= padded(
                old(dev).command_queue.meta.0@,
                next_meta_offset(*old(dev)),
            ) + (seq![op] + layout_input1.meta_words() + layout_input2.meta_words()));
        }
        let pipeline = dev.command_queue.get_pipeline_const(
            Pipelines::Binary(dt, BinaryFunctions::BinaryBufferFromBuffer),
            &const_vec,
        );
        let bind_group = create_bind_group_input2(buffer_dest, buffer_input1, buffer_input2);
        enqueue_big(dev, pipeline, bind_group, length);
    }
    Ok(())
}

} // verus!
