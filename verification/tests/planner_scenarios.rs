//! Planner-level scenarios: dispatch extents, metadata layout, in-place
//! rewriting, copy elision, command-buffer splitting and the memory
//! budget, all checked on concrete queues.

use wgpu_queue::HostDType;
use wgpu_queue::bindgroup::{BindGroupReference, create_bind_group_input1};
use wgpu_queue::conv2d::{ParamsConv2D, queue_conv2d};
use wgpu_queue::convert::queue_convert_u32_to_u8;
use wgpu_queue::copy::queue_copy;
use wgpu_queue::flush::flush_gpu_command;
use wgpu_queue::layout::Layout;
use wgpu_queue::pipeline::{
    Conv2dFunctions, CopyFunctions, Pipelines, UnaryFunctions,
};
use wgpu_queue::queue::{
    enqueue_big, get_meta, DeviceLimits, DispatchedBindgroup, MlQueue, WgpuDevice,
};
use wgpu_queue::unary::queue_unary_from_buffer_op;

fn device() -> WgpuDevice {
    WgpuDevice::new(WgpuDevice::default_limits())
}

fn dispatch_extents(q: &MlQueue) -> (u32, u32, u32) {
    let MlQueue::Dispatch(d) = q;
    (d.x, d.y, d.z)
}

fn unary_pipeline(dev: &mut WgpuDevice) -> wgpu_queue::pipeline::PipelineType {
    let consts: Vec<u32> = Vec::new();
    dev.command_queue.get_pipeline_const(
        Pipelines::Unary(wgpu_queue::DType::F32, UnaryFunctions::UnaryFromBufferContiguous),
        &consts,
    )
}

/// Queue a contiguous unary op over `n` f32 elements onto fresh buffers and
/// return (dest, input).
fn queue_unary_n(dev: &mut WgpuDevice, n: u32) -> (usize, usize) {
    let dest = dev.cache.create_buffer_reference(n as u64 * 4, true);
    let input = dev.cache.create_buffer_reference(n as u64 * 4, true);
    let layout = Layout::contiguous(&vec![n]);
    queue_unary_from_buffer_op(dev, dest, input, 1, HostDType::F32, &layout).unwrap();
    (dest, input)
}

#[test]
fn enqueue_big_splits_across_y_at_the_dispatch_limit() {
    let mut dev = device();
    let dest = dev.cache.create_buffer_reference(4, true);
    let pipeline = unary_pipeline(&mut dev);
    let bg = create_bind_group_input1(dest, dest);
    get_meta(&mut dev);
    enqueue_big(&mut dev, pipeline, bg, 65535 * 64);
    let (x, y, z) = dispatch_extents(&dev.command_queue.command_queue[0]);
    assert_eq!((x, y, z), (65535, 1, 1));

    get_meta(&mut dev);
    enqueue_big(&mut dev, pipeline, bg, 65535 * 64 + 1);
    let (x, y, z) = dispatch_extents(&dev.command_queue.command_queue[1]);
    assert_eq!((x, y, z), (65535, 2, 1));
}

#[test]
fn every_recorded_dispatch_is_aligned_and_within_extent_limits() {
    let mut dev = device();
    for n in [1u32, 63, 64, 65, 1000, 65535 * 64] {
        queue_unary_n(&mut dev, n);
    }
    let align_words = dev.device_limits.min_storage_buffer_offset_alignment / 4;
    for q in &dev.command_queue.command_queue {
        let MlQueue::Dispatch(d) = q;
        assert_eq!(d.meta % align_words, 0);
        assert!(d.x <= 65535 && d.y <= 65535 && d.z <= 65535);
    }
}

#[test]
fn convert_u32_to_u8_packs_four_bytes_per_entry() {
    let mut dev = device();
    let dest = dev.cache.create_buffer_reference(1024, true);
    let input = dev.cache.create_buffer_reference(4096, true);
    queue_convert_u32_to_u8(&mut dev, dest, input, 7, 1024).unwrap();
    let MlQueue::Dispatch(d) = &dev.command_queue.command_queue[0];
    assert_eq!((d.x, d.y, d.z), (256, 1, 1));
    // meta holds exactly { start_offset, size }
    let meta = &dev.command_queue.meta.0;
    assert_eq!(meta[d.meta as usize], 7);
    assert_eq!(meta[d.meta as usize + 1], 1024);
    assert_eq!(meta.len(), d.meta as usize + 2);
}

#[test]
fn conv2d_contiguous_input_yields_a_single_tiled_dispatch() {
    let mut dev = device();
    let dest = dev.cache.create_buffer_reference(1 * 16 * 64 * 64 * 4, true);
    let input = dev.cache.create_buffer_reference(1 * 3 * 64 * 64 * 4, true);
    let kernel = dev.cache.create_buffer_reference(16 * 3 * 3 * 3 * 4, true);
    let params = ParamsConv2D {
        b_size: 1,
        c_in: 3,
        c_out: 16,
        i_h: 64,
        i_w: 64,
        k_h: 3,
        k_w: 3,
        padding: 1,
        stride: 1,
        dilation: 1,
    };
    let input_layout = Layout::contiguous(&vec![1, 3, 64, 64]);
    let kernel_layout = Layout::contiguous(&vec![16, 3, 3, 3]);
    queue_conv2d(
        &mut dev,
        dest,
        input,
        kernel,
        HostDType::F32,
        &params,
        &input_layout,
        &kernel_layout,
    )
    .unwrap();
    assert_eq!(dev.command_queue.command_queue.len(), 1);
    let MlQueue::Dispatch(d) = &dev.command_queue.command_queue[0];
    assert_eq!((d.x, d.y, d.z), (4, 4, 16));
    assert!(matches!(
        d.pipeline.0,
        Pipelines::Conv2d(wgpu_queue::DType::F32, Conv2dFunctions::Conv2d)
    ));
}

#[test]
fn conv2d_with_strided_innermost_input_precopies_to_a_contiguous_buffer() {
    let mut dev = device();
    let dest = dev.cache.create_buffer_reference(1 * 33 * 64 * 64 * 4, true);
    let input = dev.cache.create_buffer_reference(1 * 3 * 64 * 64 * 4, true);
    let kernel = dev.cache.create_buffer_reference(33 * 3 * 3 * 3 * 4, true);
    let params = ParamsConv2D {
        b_size: 1,
        c_in: 3,
        c_out: 33,
        i_h: 64,
        i_w: 64,
        k_h: 3,
        k_w: 3,
        padding: 1,
        stride: 1,
        dilation: 1,
    };
    // channels-last storage: the innermost stride is not 1
    let input_layout = Layout::new(vec![1, 3, 64, 64], vec![12288, 1, 192, 3], 0);
    let kernel_layout = Layout::contiguous(&vec![33, 3, 3, 3]);
    let refs_before = dev.cache.buffer_references.len();
    queue_conv2d(
        &mut dev,
        dest,
        input,
        kernel,
        HostDType::F32,
        &params,
        &input_layout,
        &kernel_layout,
    )
    .unwrap();
    // a strided copy, then the convolution over the contiguous layout
    assert_eq!(dev.command_queue.command_queue.len(), 2);
    assert_eq!(dev.cache.buffer_references.len(), refs_before + 1);
    let tmp = refs_before;
    assert_eq!(dev.cache.buffer_references[tmp].size, 3 * 64 * 64 * 4);
    let MlQueue::Dispatch(copy) = &dev.command_queue.command_queue[0];
    assert!(matches!(
        copy.pipeline.0,
        Pipelines::CopyOp(wgpu_queue::DType::F32, CopyFunctions::CopyStrided)
    ));
    match &copy.bindgroup {
        DispatchedBindgroup::BindgroupReference(BindGroupReference::Bindgroup1(d0, i0, _)) => {
            assert_eq!((*d0, *i0), (tmp, input));
        }
        _ => panic!("strided copy should still be a bind-group reference"),
    }
    let MlQueue::Dispatch(conv) = &dev.command_queue.command_queue[1];
    match &conv.bindgroup {
        DispatchedBindgroup::BindgroupReference(BindGroupReference::Bindgroup2(
            d0,
            i0,
            k0,
            _,
        )) => {
            assert_eq!((*d0, *i0, *k0), (dest, tmp, kernel));
        }
        _ => panic!("conv should still be a bind-group reference"),
    }
}

#[test]
fn unsupported_dtype_fails_at_encoder_entry_and_records_nothing() {
    let mut dev = device();
    let dest = dev.cache.create_buffer_reference(64, true);
    let input = dev.cache.create_buffer_reference(64, true);
    let layout = Layout::contiguous(&vec![16]);
    let r = queue_unary_from_buffer_op(&mut dev, dest, input, 1, HostDType::F64, &layout);
    assert_eq!(r, Err(wgpu_queue::Error::UnsupportedDType));
    assert_eq!(dev.command_queue.command_queue.len(), 0);
    assert_eq!(dev.command_queue.meta.0.len(), 0);
}

#[test]
fn unary_on_a_sole_reference_runs_in_place_without_allocating() {
    let mut dev = device();
    let n: u32 = 1_000_000;
    let input = dev.cache.create_buffer_reference(n as u64 * 4, false);
    let (sid_in, _) = dev.cache.bind_buffer(input);
    let dest = dev.cache.create_buffer_reference(n as u64 * 4, true);
    let layout = Layout::contiguous(&vec![n]);
    queue_unary_from_buffer_op(&mut dev, dest, input, 1, HostDType::F32, &layout).unwrap();
    // the caller drops its handle: the queue is now the sole holder
    dev.cache.release_buffer_reference(input);
    let plans = flush_gpu_command(&mut dev);
    assert_eq!(plans.len(), 1);
    assert_eq!(plans[0].dispatches.len(), 1);
    let pd = &plans[0].dispatches[0];
    assert_eq!((pd.x, pd.y, pd.z), (15625, 1, 1));
    assert!(matches!(
        pd.pipeline.0,
        Pipelines::Unary(wgpu_queue::DType::F32, UnaryFunctions::UnaryInplaceContiguous)
    ));
    // arity 0: the dispatch binds only the aliased buffer
    assert_eq!(pd.bindgroup.inputs.len(), 0);
    assert_eq!(pd.bindgroup.dest, sid_in);
    // the alias moved the storage: source unbound, dest holds it
    assert_eq!(dev.cache.buffer_references[input].storage, None);
    assert_eq!(dev.cache.buffer_references[dest].storage, Some(sid_in));
    // and nothing new was allocated for the rewrite
    assert_eq!(plans[0].allocations.len(), 0);
}

#[test]
fn whole_buffer_copy_of_a_sole_reference_is_elided_entirely() {
    let mut dev = device();
    let input = dev.cache.create_buffer_reference(4096, false);
    let (sid_in, _) = dev.cache.bind_buffer(input);
    let dest = dev.cache.create_buffer_reference(4096, true);
    queue_copy(&mut dev, dest, input, HostDType::F32, 0, 0, 1024).unwrap();
    dev.cache.release_buffer_reference(input);
    let plans = flush_gpu_command(&mut dev);
    // no dispatch at all: the storage moved at plan time
    assert_eq!(plans.len(), 1);
    assert_eq!(plans[0].dispatches.len(), 0);
    assert_eq!(dev.cache.buffer_references[input].storage, None);
    assert_eq!(dev.cache.buffer_references[dest].storage, Some(sid_in));
}

#[test]
fn empty_flush_submits_nothing_and_leaves_the_device_unchanged() {
    let mut dev = device();
    let plans = flush_gpu_command(&mut dev);
    assert_eq!(plans.len(), 0);
    assert_eq!(dev.command_queue.command_queue.len(), 0);
    assert_eq!(dev.cache.buffers.len(), 0);
    assert_eq!(dev.cache.max_memory_allowed, 0);
}

#[test]
fn workload_cap_splits_two_hundred_dispatches_into_two_command_buffers() {
    let limits = DeviceLimits {
        min_storage_buffer_offset_alignment: 256,
        meta_buffer_size: 65536,
        // one hundred unary dispatches of workload 64 fit exactly
        max_workload_size: 6400,
    };
    let mut dev = WgpuDevice::new(limits);
    for _ in 0..200 {
        queue_unary_n(&mut dev, 64);
    }
    let plans = flush_gpu_command(&mut dev);
    assert_eq!(plans.len(), 2);
    assert_eq!(plans[0].dispatches.len(), 100);
    assert_eq!(plans[1].dispatches.len(), 100);
}

#[test]
fn meta_window_fills_to_the_upload_margin_and_then_splits() {
    let mut dev = device();
    // each dispatch starts a fresh 64-word window (256-byte alignment);
    // 256 of them overflow the 64 KiB metadata buffer's upload margin
    for _ in 0..256 {
        queue_unary_n(&mut dev, 64);
    }
    let plans = flush_gpu_command(&mut dev);
    assert_eq!(plans.len(), 2);
    assert_eq!(plans[0].dispatches.len(), 255);
    // the first upload is exactly META_BUFFER_SIZE - 256 bytes
    assert_eq!(plans[0].meta_words.len() * 4, 65536 - 256);
    assert_eq!(plans[1].dispatches.len(), 1);
    for p in &plans {
        assert!(p.meta_words.len() * 4 + 256 <= 65536);
    }
}

#[test]
fn memory_budget_rises_to_the_expanded_watermark_and_decays_toward_it() {
    let mut dev = device();
    queue_unary_n(&mut dev, 1024);
    let _ = flush_gpu_command(&mut dev);
    let watermark = dev.cache.last_most_needed;
    // raise case: from zero the budget jumps to the expanded watermark
    assert_eq!(dev.cache.max_memory_allowed, watermark);
    assert_eq!(watermark, (2 * 1024 * 4) * 5 / 4);

    // decay case: an oversized budget moves an eighth toward the watermark
    dev.cache.max_memory_allowed = 8 * watermark;
    queue_unary_n(&mut dev, 1024);
    let _ = flush_gpu_command(&mut dev);
    let lmn = dev.cache.last_most_needed;
    let expected = (7 * (8 * watermark)) / 8 + lmn / 8;
    assert_eq!(dev.cache.max_memory_allowed, expected);
    assert!(dev.cache.max_memory_allowed < 8 * watermark);
}

#[test]
fn command_buffer_workload_sums_respect_the_cap_or_hold_one_dispatch() {
    let limits = DeviceLimits {
        min_storage_buffer_offset_alignment: 256,
        meta_buffer_size: 65536,
        max_workload_size: 100,
    };
    let mut dev = WgpuDevice::new(limits);
    // one overweight dispatch, then a few light ones
    queue_unary_n(&mut dev, 6400);
    for _ in 0..5 {
        queue_unary_n(&mut dev, 32);
    }
    let plans = flush_gpu_command(&mut dev);
    for p in &plans {
        let sum: u64 = p.dispatches.iter().map(|d| d.workload_size).sum();
        assert!(sum <= 100 || p.dispatches.len() == 1);
    }
    // the overweight dispatch sits alone in its command buffer
    assert_eq!(plans[0].dispatches.len(), 1);
    assert!(plans[0].dispatches[0].workload_size > 100);
}
