//! Op encoders for dtype conversions. Each (source, destination) pair picks
//! a specific pipeline. The layout-driven conversions tile one invocation
//! per element; the byte-packing conversions write four packed bytes per
//! workgroup entry, so their dispatch is `ceil(size, 4)` workgroups.

use vstd::prelude::*;

verus! {

use crate::{DType, Error};
use crate::bindgroup::{BindGroupReference, create_bind_group_input1};
use crate::layout::Layout;
use crate::pipeline::{ConvertFunctions, Pipelines, no_inplace};
use crate::queue::{
    WgpuDevice,
    encoded_one,
    encoder_ready,
    enqueue,
    enqueue_workgroups,
    get_meta,
    padded,
    next_meta_offset,
    ref_usable,
};

/// Queues the conversion of `input_layout`'s elements, read as `U32`
/// through `buffer_input`, into `F32` values in `buffer_dest`.
pub fn queue_convert_u32_to_f32(
    dev: &mut WgpuDevice,
    buffer_dest: usize,
    buffer_input: usize,
    input_layout: &Layout,
) -> (r: Result<(), Error>)
    requires
        encoder_ready(*old(dev)),
        ref_usable(*old(dev), buffer_dest),
        ref_usable(*old(dev), buffer_input),
        input_layout.wf(),
        input_layout.counts_fit(),
        input_layout.elem_count_spec() <= 65535 * 64,
    ensures
        r is Ok,
        encoded_one(
            *old(dev),
            *final(dev),
            Pipelines::Convert(DType::U32, ConvertFunctions::ConvertU32ToF32),
            no_inplace(),
            BindGroupReference::Bindgroup1(buffer_dest, buffer_input, false),
            ((input_layout.elem_count_spec() + 63) / 64) as u32,
            1,
            1,
            input_layout.elem_count_spec() as u64,
            input_layout.meta_words(),
            Seq::<u32>::empty(),
        ),
{
    get_meta(dev);
    proof {
        assert(dev.command_queue.meta.0@ =~= padded(
            old(dev).command_queue.meta.0@,
            next_meta_offset(*old(dev)),
        ));
    }
    dev.command_queue.meta.add_layout(input_layout);
    let const_vec: Vec<u32> = Vec::new();
    let pipeline = dev.command_queue.get_pipeline_const(
        Pipelines::Convert(DType::U32, ConvertFunctions::ConvertU32ToF32),
        &const_vec,
    );
    let bind_group = create_bind_group_input1(buffer_dest, buffer_input);
    let length = input_layout.elem_count() as u32;
    proof {
        assert(const_vec@ =~= Seq::<u32>::empty());
    }
    enqueue(dev, pipeline, bind_group, length, length as u64);
    Ok(())
}

/// Queues the conversion of `input_layout`'s elements, read as `U8`
/// through `buffer_input`, into `buffer_dest`.
pub fn queue_convert_u8_to_f32(
    dev: &mut WgpuDevice,
    buffer_dest: usize,
    buffer_input: usize,
    input_layout: &Layout,
) -> (r: Result<(), Error>)
    requires
        encoder_ready(*old(dev)),
        ref_usable(*old(dev), buffer_dest),
        ref_usable(*old(dev), buffer_input),
        input_layout.wf(),
        input_layout.counts_fit(),
        input_layout.elem_count_spec() <= 65535 * 64,
    ensures
        r is Ok,
        encoded_one(
            *old(dev),
            *final(dev),
            Pipelines::Convert(DType::U8, ConvertFunctions::ConvertU8ToF32),
            no_inplace(),
            BindGroupReference::Bindgroup1(buffer_dest, buffer_input, false),
            ((input_layout.elem_count_spec() + 63) / 64) as u32,
            1,
            1,
            input_layout.elem_count_spec() as u64,
            input_layout.meta_words(),
            Seq::<u32>::empty(),
        ),
{
    get_meta(dev);
    proof {
        assert(dev.command_queue.meta.0@ =~= padded(
            old(dev).command_queue.meta.0@,
            next_meta_offset(*old(dev)),
        ));
    }
    dev.command_queue.meta.add_layout(input_layout);
    let const_vec: Vec<u32> = Vec::new();
    let pipeline = dev.command_queue.get_pipeline_const(
        Pipelines::Convert(DType::U8, ConvertFunctions::ConvertU8ToF32),
        &const_vec,
    );
    let bind_group = create_bind_group_input1(buffer_dest, buffer_input);
    let length = input_layout.elem_count() as u32;
    proof {
        assert(const_vec@ =~= Seq::<u32>::empty());
    }
    enqueue(dev, pipeline, bind_group, length, length as u64);
    Ok(())
}

/// Queues the conversion of `input_layout`'s elements, read as `F32`
/// through `buffer_input`, into `buffer_dest`.
pub fn queue_convert_f32_to_u32(
    dev: &mut WgpuDevice,
    buffer_dest: usize,
    buffer_input: usize,
    input_layout: &Layout,
) -> (r: Result<(), Error>)
    requires
        encoder_ready(*old(dev)),
        ref_usable(*old(dev), buffer_dest),
        ref_usable(*old(dev), buffer_input),
        input_layout.wf(),
        input_layout.counts_fit(),
        input_layout.elem_count_spec() <= 65535 * 64,
    ensures
        r is Ok,
        encoded_one(
            *old(dev),
            *final(dev),
            Pipelines::Convert(DType::F32, ConvertFunctions::ConvertF32ToU32),
            no_inplace(),
            BindGroupReference::Bindgroup1(buffer_dest, buffer_input, false),
            ((input_layout.elem_count_spec() + 63) / 64) as u32,
            1,
            1,
            input_layout.elem_count_spec() as u64,
            input_layout.meta_words(),
            Seq::<u32>::empty(),
        ),
{
    get_meta(dev);
    proof {
        assert(dev.command_queue.meta.0@ =~= padded(
            old(dev).command_queue.meta.0@,
            next_meta_offset(*old(dev)),
        ));
    }
    dev.command_queue.meta.add_layout(input_layout);
    let const_vec: Vec<u32> = Vec::new();
    let pipeline = dev.command_queue.get_pipeline_const(
        Pipelines::Convert(DType::F32, ConvertFunctions::ConvertF32ToU32),
        &const_vec,
    );
    let bind_group = create_bind_group_input1(buffer_dest, buffer_input);
    let length = input_layout.elem_count() as u32;
    proof {
        assert(const_vec@ =~= Seq::<u32>::empty());
    }
    enqueue(dev, pipeline, bind_group, length, length as u64);
    Ok(())
}

/// Queues the byte-packing conversion of `size` elements, read as
/// `U32` through `buffer_input` starting at `start_offset`, into
/// packed `U8` values in `buffer_dest`: one workgroup entry per four packed
/// bytes.
pub fn queue_convert_u32_to_u8(
    dev: &mut WgpuDevice,
    buffer_dest: usize,
    buffer_input: usize,
    start_offset: u32,
    size: u32,
) -> (r: Result<(), Error>)
    requires
        encoder_ready(*old(dev)),
        ref_usable(*old(dev), buffer_dest),
        ref_usable(*old(dev), buffer_input),
        size <= 65535 * 4,
    ensures
        r is Ok,
        encoded_one(
            *old(dev),
            *final(dev),
            Pipelines::Convert(DType::U32, ConvertFunctions::ConvertU32ToU8),
            no_inplace(),
            BindGroupReference::Bindgroup1(buffer_dest, buffer_input, false),
            ((size + 3) / 4) as u32,
            1,
            1,
            size as u64,
            seq![start_offset, size],
            Seq::<u32>::empty(),
        ),
{
    get_meta(dev);
    proof {
        assert(dev.command_queue.meta.0@ =~= padded(
            old(dev).command_queue.meta.0@,
            next_meta_offset(*old(dev)),
        ));
    }
    dev.command_queue.meta.add(start_offset);
    dev.command_queue.meta.add(size);
    proof {
        assert(dev.command_queue.meta.0@ =~= padded(
            old(dev).command_queue.meta.0@,
            next_meta_offset(*old(dev)),
        ) + seq![start_offset, size]);
    }
    let const_vec: Vec<u32> = Vec::new();
    let pipeline = dev.command_queue.get_pipeline_const(
        Pipelines::Convert(DType::U32, ConvertFunctions::ConvertU32ToU8),
        &const_vec,
    );
    let bind_group = create_bind_group_input1(buffer_dest, buffer_input);
    proof {
        assert(const_vec@ =~= Seq::<u32>::empty());
    }
    enqueue_workgroups(dev, pipeline, bind_group, (size + 3) / 4, 1, 1, size as u64);
    Ok(())
}

/// Queues the byte-packing conversion of `size` elements, read as
/// `F32` through `buffer_input` starting at `start_offset`, into
/// packed `U8` values in `buffer_dest`: one workgroup entry per four packed
/// bytes.
pub fn queue_convert_f32_to_u8(
    dev: &mut WgpuDevice,
    buffer_dest: usize,
    buffer_input: usize,
    start_offset: u32,
    size: u32,
) -> (r: Result<(), Error>)
    requires
        encoder_ready(*old(dev)),
        ref_usable(*old(dev), buffer_dest),
        ref_usable(*old(dev), buffer_input),
        size <= 65535 * 4,
    ensures
        r is Ok,
        encoded_one(
            *old(dev),
            *final(dev),
            Pipelines::Convert(DType::F32, ConvertFunctions::ConvertF32ToU8),
            no_inplace(),
            BindGroupReference::Bindgroup1(buffer_dest, buffer_input, false),
            ((size + 3) / 4) as u32,
            1,
            1,
            size as u64,
            seq![start_offset, size],
            Seq::<u32>::empty(),
        ),
{
    get_meta(dev);
    proof {
        assert(dev.command_queue.meta.0@ =~= padded(
            old(dev).command_queue.meta.0@,
            next_meta_offset(*old(dev)),
        ));
    }
    dev.command_queue.meta.add(start_offset);
    dev.command_queue.meta.add(size);
    proof {
        assert(dev.command_queue.meta.0@ =~= padded(
            old(dev).command_queue.meta.0@,
            next_meta_offset(*old(dev)),
        ) + seq![start_offset, size]);
    }
    let const_vec: Vec<u32> = Vec::new();
    let pipeline = dev.command_queue.get_pipeline_const(
        Pipelines::Convert(DType::F32, ConvertFunctions::ConvertF32ToU8),
        &const_vec,
    );
    let bind_group = create_bind_group_input1(buffer_dest, buffer_input);
    proof {
        assert(const_vec@ =~= Seq::<u32>::empty());
    }
    enqueue_workgroups(dev, pipeline, bind_group, (size + 3) / 4, 1, 1, size as u64);
    Ok(())
}

} // verus!
