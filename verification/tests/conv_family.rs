//! Scenarios for the remaining convolution encoders: tiling of the 1-D
//! forms and the output-padding handling of the transposed forms.

use wgpu_queue::HostDType;
use wgpu_queue::conv2d::{
    queue_conv1d, queue_conv1d_transpose, queue_conv2d_transpose, ParamsConv1D,
    ParamsConvTranspose1D, ParamsConvTranspose2D,
};
use wgpu_queue::layout::Layout;
use wgpu_queue::pipeline::{Conv1dFunctions, Conv2dFunctions, Pipelines};
use wgpu_queue::queue::{MlQueue, WgpuDevice};

fn device() -> WgpuDevice {
    WgpuDevice::new(WgpuDevice::default_limits())
}

#[test]
fn conv1d_tiles_the_output_length_by_sixty_four_per_channel() {
    let mut dev = device();
    let dest = dev.cache.create_buffer_reference(2 * 8 * 100 * 4, true);
    let input = dev.cache.create_buffer_reference(2 * 3 * 100 * 4, true);
    let kernel = dev.cache.create_buffer_reference(8 * 3 * 5 * 4, true);
    let params = ParamsConv1D {
        b_size: 2,
        c_in: 3,
        c_out: 8,
        l_in: 100,
        k_size: 5,
        padding: 2,
        stride: 1,
        dilation: 1,
    };
    let input_layout = Layout::contiguous(&vec![2, 3, 100]);
    let kernel_layout = Layout::contiguous(&vec![8, 3, 5]);
    queue_conv1d(
        &mut dev,
        dest,
        input,
        kernel,
        HostDType::F32,
        &params,
        &input_layout,
        &kernel_layout,
    )
    .unwrap();
    let MlQueue::Dispatch(d) = &dev.command_queue.command_queue[0];
    // l_out = 100, ceil(100 / 64) = 2 workgroups, one column per channel
    assert_eq!((d.x, d.y, d.z), (2, 8, 1));
    assert!(matches!(
        d.pipeline.0,
        Pipelines::Conv1d(wgpu_queue::DType::F32, Conv1dFunctions::Conv1d)
    ));
}

#[test]
fn transposed_conv2d_reduces_the_tiled_extent_by_the_output_padding() {
    let mut dev = device();
    let dest = dev.cache.create_buffer_reference(1 * 4 * 17 * 17 * 4, true);
    let input = dev.cache.create_buffer_reference(1 * 2 * 8 * 8 * 4, true);
    let kernel = dev.cache.create_buffer_reference(2 * 4 * 3 * 3 * 4, true);
    let params = ParamsConvTranspose2D {
        b_size: 1,
        c_in: 2,
        c_out: 4,
        i_h: 8,
        i_w: 8,
        k_h: 3,
        k_w: 3,
        padding: 0,
        output_padding: 1,
        stride: 2,
        dilation: 1,
    };
    // out = (8 - 1) * 2 + (3 - 1) + 1 + 1 = 18; tiled over out - output_padding
    let input_layout = Layout::contiguous(&vec![1, 2, 8, 8]);
    let kernel_layout = Layout::contiguous(&vec![2, 4, 3, 3]);
    queue_conv2d_transpose(
        &mut dev,
        dest,
        input,
        kernel,
        HostDType::F32,
        &params,
        &input_layout,
        &kernel_layout,
    )
    .unwrap();
    let MlQueue::Dispatch(d) = &dev.command_queue.command_queue[0];
    assert_eq!((d.x, d.y, d.z), ((18 - 1 + 15) / 16, (18 - 1 + 15) / 16, 4));
    assert!(matches!(
        d.pipeline.0,
        Pipelines::Conv2d(wgpu_queue::DType::F32, Conv2dFunctions::Conv2dTranspose)
    ));
}

#[test]
fn transposed_conv1d_reduces_the_tiled_length_by_the_output_padding() {
    let mut dev = device();
    let dest = dev.cache.create_buffer_reference(1 * 4 * 130 * 4, true);
    let input = dev.cache.create_buffer_reference(1 * 2 * 64 * 4, true);
    let kernel = dev.cache.create_buffer_reference(2 * 4 * 3 * 4, true);
    let params = ParamsConvTranspose1D {
        b_size: 1,
        c_in: 2,
        c_out: 4,
        l_in: 64,
        k_size: 3,
        padding: 0,
        output_padding: 1,
        stride: 2,
        dilation: 1,
    };
    // l_out = (64 - 1) * 2 + (3 - 1) + 1 + 1 = 130
    let input_layout = Layout::contiguous(&vec![1, 2, 64]);
    let kernel_layout = Layout::contiguous(&vec![2, 4, 3]);
    queue_conv1d_transpose(
        &mut dev,
        dest,
        input,
        kernel,
        HostDType::F32,
        &params,
        &input_layout,
        &kernel_layout,
    )
    .unwrap();
    let MlQueue::Dispatch(d) = &dev.command_queue.command_queue[0];
    assert_eq!((d.x, d.y, d.z), ((130 - 1 + 63) / 64, 4, 1));
    assert!(matches!(
        d.pipeline.0,
        Pipelines::Conv1d(wgpu_queue::DType::F32, Conv1dFunctions::Conv1dTranspose)
    ));
}

#[test]
fn conv1d_with_an_unsupported_dtype_records_nothing() {
    let mut dev = device();
    let dest = dev.cache.create_buffer_reference(64, true);
    let input = dev.cache.create_buffer_reference(64, true);
    let kernel = dev.cache.create_buffer_reference(64, true);
    let params = ParamsConv1D {
        b_size: 1,
        c_in: 1,
        c_out: 1,
        l_in: 4,
        k_size: 1,
        padding: 0,
        stride: 1,
        dilation: 1,
    };
    let input_layout = Layout::contiguous(&vec![1, 1, 4]);
    let kernel_layout = Layout::contiguous(&vec![1, 1, 1]);
    let r = queue_conv1d(
        &mut dev,
        dest,
        input,
        kernel,
        HostDType::BF16,
        &params,
        &input_layout,
        &kernel_layout,
    );
    assert_eq!(r, Err(wgpu_queue::Error::UnsupportedDType));
    assert_eq!(dev.command_queue.command_queue.len(), 0);
}
