//! Op encoders for buffer copies. A plain copy from offset zero to offset
//! zero is marked in-place-eligible: when its input turns out to be the
//! sole holder of its storage, the flush planner elides the dispatch
//! entirely and transfers the storage instead. A strided copy gathers the
//! source through its layout into a contiguous destination.

use vstd::prelude::*;

verus! {

use crate::{Error, HostDType, dtype_of, get_dtype};
use crate::bindgroup::{BindGroupReference, create_bind_group_input1};
use crate::layout::Layout;
use crate::pipeline::{CopyFunctions, OpIsInplaceable, Pipelines, no_inplace};
use crate::queue::{
    WgpuDevice,
    big_extents,
    encoded_one,
    encoder_ready,
    enqueue_big,
    get_meta,
    next_meta_offset,
    padded,
    ref_usable,
};

/// The in-place hints a plain copy carries: the input may donate its
/// storage only when the copy spans whole buffers.
pub open spec fn copy_inplace_hints(dest_offset: u32, source_offset: u32) -> OpIsInplaceable {
    OpIsInplaceable {
        input1_inplaceable: dest_offset == 0 && source_offset == 0,
        input2_inplaceable: false,
    }
}

/// Queues a copy of `copy_size` elements from `buffer_input` (starting at
/// `source_offset`) into `buffer_dest` (starting at `dest_offset`).
/// Unsupported dtypes fail before anything is recorded.
pub fn queue_copy(
    dev: &mut WgpuDevice,
    buffer_dest: usize,
    buffer_input: usize,
    dtype: HostDType,
    dest_offset: u32,
    source_offset: u32,
    copy_size: u32,
) -> (r: Result<(), Error>)
    requires
        encoder_ready(*old(dev)),
        ref_usable(*old(dev), buffer_dest),
        ref_usable(*old(dev), buffer_input),
    ensures
        dtype_of(dtype) is None ==> r == Err::<(), Error>(Error::UnsupportedDType) && *final(dev)
            == *old(dev),
        dtype_of(dtype) is Some ==> r is Ok && encoded_one(
            *old(dev),
            *final(dev),
            Pipelines::CopyOp(dtype_of(dtype)->Some_0, CopyFunctions::CopyBuffer),
            copy_inplace_hints(dest_offset, source_offset),
            BindGroupReference::Bindgroup1(buffer_dest, buffer_input, false),
            big_extents(copy_size).0,
            big_extents(copy_size).1,
            1,
            copy_size as u64,
            seq![copy_size, source_offset, dest_offset],
            Seq::<u32>::empty(),
        ),
{
    let dt = get_dtype(dtype)?;
    let const_vec: Vec<u32> = Vec::new();
    proof {
        assert(const_vec@ =~= Seq::<u32>::empty());
    }
    get_meta(dev);
    proof {
        assert(dev.command_queue.meta.0@ =~= padded(
            old(dev).command_queue.meta.0@,
            next_meta_offset(*old(dev)),
        ));
    }
    dev.command_queue.meta.add(copy_size);
    dev.command_queue.meta.add(source_offset);
    dev.command_queue.meta.add(dest_offset);
    proof {
        assert(dev.command_queue.meta.0@ =~= padded(
            old(dev).command_queue.meta.0@,
            next_meta_offset(*old(dev)),
        ) + seq![copy_size, source_offset, dest_offset]);
    }
    let mut flags = OpIsInplaceable::new();
    flags.input1_inplaceable = dest_offset == 0 && source_offset == 0;
    let pipeline = dev.command_queue.get_pipeline_const_inplace(
        Pipelines::CopyOp(dt, CopyFunctions::CopyBuffer),
        &const_vec,
        flags,
    );
    let bind_group = create_bind_group_input1(buffer_dest, buffer_input);
    enqueue_big(dev, pipeline, bind_group, copy_size);
    Ok(())
}

/// Queues a strided copy: the elements of `input_layout`, read through
/// `buffer_input`, are gathered into a contiguous run of `buffer_dest`
/// starting at `dest_offset`. Unsupported dtypes fail before anything is
/// recorded.
pub fn queue_copy_strided(
    dev: &mut WgpuDevice,
    buffer_dest: usize,
    buffer_input: usize,
    dtype: HostDType,
    input_layout: &Layout,
    dest_offset: u32,
) -> (r: Result<(), Error>)
    requires
        encoder_ready(*old(dev)),
        ref_usable(*old(dev), buffer_dest),
        ref_usable(*old(dev), buffer_input),
        input_layout.wf(),
        input_layout.counts_fit(),
        input_layout.elem_count_spec() <= u32::MAX,
    ensures
        dtype_of(dtype) is None ==> r == Err::<(), Error>(Error::UnsupportedDType) && *final(dev)
            == *old(dev),
        dtype_of(dtype) is Some ==> r is Ok && encoded_one(
            *old(dev),
            *final(dev),
            Pipelines::CopyOp(dtype_of(dtype)->Some_0, CopyFunctions::CopyStrided),
            no_inplace(),
            BindGroupReference::Bindgroup1(buffer_dest, buffer_input, false),
            big_extents(input_layout.elem_count_spec() as u32).0,
            big_extents(input_layout.elem_count_spec() as u32).1,
            1,
            input_layout.elem_count_spec() as u64,
            input_layout.meta_words() + seq![dest_offset],
            Seq::<u32>::empty(),
        ),
{
    let dt = get_dtype(dtype)?;
    let length = input_layout.elem_count() as u32;
    let const_vec: Vec<u32> = Vec::new();
    proof {
        assert(const_vec@ =~= Seq::<u32>::empty());
    }
    get_meta(dev);
    proof {
        assert(dev.command_queue.meta.0@ =~= padded(
            old(dev).command_queue.meta.0@,
            next_meta_offset(*old(dev)),
        ));
    }
    dev.command_queue.meta.add_layout(input_layout);
    dev.command_queue.meta.add(dest_offset);
    proof {
        assert(dev.command_queue.meta.0@ =~= padded(
            old(dev).command_queue.meta.0@,
            next_meta_offset(*old(dev)),
        ) + (input_layout.meta_words() + seq![dest_offset]));
    }
    let pipeline = dev.command_queue.get_pipeline_const(
        Pipelines::CopyOp(dt, CopyFunctions::CopyStrided),
        &const_vec,
    );
    let bind_group = create_bind_group_input1(buffer_dest, buffer_input);
    enqueue_big(dev, pipeline, bind_group, length);
    Ok(())
}

} // verus!
