//! End-to-end readback checks: a small host-side executor runs the
//! planned command buffers over byte buffers, interpreting the metadata
//! records exactly as the compute kernels would, and the results are
//! compared against the same computation done directly on the host.

use std::collections::HashMap;

use wgpu_queue::HostDType;
use wgpu_queue::convert::{queue_convert_f32_to_u32, queue_convert_u32_to_f32};
use wgpu_queue::copy::queue_copy;
use wgpu_queue::flush::{flush_gpu_command, read_data_from_gpu, CommandBufferPlan, PlanDispatch};
use wgpu_queue::layout::Layout;
use wgpu_queue::pipeline::{BinaryFunctions, ConvertFunctions, CopyFunctions, Pipelines, UnaryFunctions};
use wgpu_queue::queue::WgpuDevice;
use wgpu_queue::unary::queue_unary_from_buffer_op;
use wgpu_queue::binary::queue_binary_buffer_from_buffer;

const OP_NEG: u32 = 1;
const OP_ADD: u32 = 2;

/// Host-side stand-in for the GPU: byte buffers indexed by pool id.
struct HostGpu {
    bufs: HashMap<usize, Vec<u8>>,
}

impl HostGpu {
    fn new() -> HostGpu {
        HostGpu { bufs: HashMap::new() }
    }

    fn read_f32(&self, id: usize, elem: usize) -> f32 {
        let b = &self.bufs[&id];
        f32::from_le_bytes([b[elem * 4], b[elem * 4 + 1], b[elem * 4 + 2], b[elem * 4 + 3]])
    }

    fn write_f32(&mut self, id: usize, elem: usize, v: f32) {
        let b = self.bufs.get_mut(&id).unwrap();
        b[elem * 4..elem * 4 + 4].copy_from_slice(&v.to_le_bytes());
    }

    fn read_u32(&self, id: usize, elem: usize) -> u32 {
        let b = &self.bufs[&id];
        u32::from_le_bytes([b[elem * 4], b[elem * 4 + 1], b[elem * 4 + 2], b[elem * 4 + 3]])
    }

    fn write_u32(&mut self, id: usize, elem: usize, v: u32) {
        let b = self.bufs.get_mut(&id).unwrap();
        b[elem * 4..elem * 4 + 4].copy_from_slice(&v.to_le_bytes());
    }

    fn run(&mut self, plans: &[CommandBufferPlan]) {
        for plan in plans {
            for a in &plan.allocations {
                self.bufs.entry(a.id).or_insert_with(|| vec![0u8; a.size as usize]);
            }
            for pd in &plan.dispatches {
                self.exec(pd, &plan.meta_words);
            }
        }
    }

    fn exec(&mut self, pd: &PlanDispatch, meta_words: &[u32]) {
        let meta = &meta_words[(pd.meta_offset / 4) as usize..];
        let dest = pd.bindgroup.dest;
        match pd.pipeline.0 {
            Pipelines::Unary(_, UnaryFunctions::UnaryFromBufferContiguous) => {
                let (op, len, start) = (meta[0], meta[1] as usize, meta[2] as usize);
                let src = pd.bindgroup.inputs[0];
                for i in 0..len {
                    let v = apply_unary(op, self.read_f32(src, start + i));
                    self.write_f32(dest, i, v);
                }
            }
            Pipelines::Unary(_, UnaryFunctions::UnaryInplaceContiguous) => {
                let (op, len, start) = (meta[0], meta[1] as usize, meta[2] as usize);
                for i in 0..len {
                    let v = apply_unary(op, self.read_f32(dest, start + i));
                    self.write_f32(dest, i, v);
                }
            }
            Pipelines::Binary(_, BinaryFunctions::BinaryBufferFromBufferContiguousBoth) => {
                let (op, len) = (meta[0], meta[1] as usize);
                let (s1, s2) = (meta[2] as usize, meta[3] as usize);
                let in1 = pd.bindgroup.inputs[0];
                let in2 = pd.bindgroup.inputs[1];
                for i in 0..len {
                    let v = apply_binary(op, self.read_f32(in1, s1 + i), self.read_f32(in2, s2 + i));
                    self.write_f32(dest, i, v);
                }
            }
            Pipelines::CopyOp(_, CopyFunctions::CopyBuffer) => {
                let (size, s_off, d_off) = (meta[0] as usize, meta[1] as usize, meta[2] as usize);
                let src = pd.bindgroup.inputs[0];
                for i in 0..size {
                    let v = self.read_u32(src, s_off + i);
                    self.write_u32(dest, d_off + i, v);
                }
            }
            Pipelines::Convert(_, ConvertFunctions::ConvertF32ToU32) => {
                let src = pd.bindgroup.inputs[0];
                for (i, e) in LayoutWalk::new(meta).enumerate() {
                    let v = self.read_f32(src, e) as u32;
                    self.write_u32(dest, i, v);
                }
            }
            Pipelines::Convert(_, ConvertFunctions::ConvertU32ToF32) => {
                let src = pd.bindgroup.inputs[0];
                for (i, e) in LayoutWalk::new(meta).enumerate() {
                    let v = self.read_u32(src, e) as f32;
                    self.write_f32(dest, i, v);
                }
            }
            _ => panic!("pipeline not modelled by the host executor"),
        }
    }
}

fn apply_unary(op: u32, x: f32) -> f32 {
    match op {
        OP_NEG => -x,
        _ => panic!("unary op not modelled"),
    }
}

fn apply_binary(op: u32, a: f32, b: f32) -> f32 {
    match op {
        OP_ADD => a + b,
        _ => panic!("binary op not modelled"),
    }
}

/// Walks a metadata layout record (rank, shape, stride, start offset) in
/// row-major order, yielding the strided element offsets.
struct LayoutWalk {
    shape: Vec<usize>,
    stride: Vec<usize>,
    start: usize,
    idx: Vec<usize>,
    done: bool,
}

impl LayoutWalk {
    fn new(meta: &[u32]) -> LayoutWalk {
        let rank = meta[0] as usize;
        let shape: Vec<usize> = meta[1..1 + rank].iter().map(|&v| v as usize).collect();
        let stride: Vec<usize> = meta[1 + rank..1 + 2 * rank].iter().map(|&v| v as usize).collect();
        let start = meta[1 + 2 * rank] as usize;
        let done = shape.iter().any(|&d| d == 0);
        let idx = vec![0; rank];
        LayoutWalk { shape, stride, start, idx, done }
    }
}

impl Iterator for LayoutWalk {
    type Item = usize;

    fn next(&mut self) -> Option<usize> {
        if self.done {
            return None;
        }
        let mut off = self.start;
        for k in 0..self.idx.len() {
            off += self.idx[k] * self.stride[k];
        }
        // advance the odometer
        let rank = self.idx.len();
        if rank == 0 {
            self.done = true;
        } else {
            let mut k = rank;
            loop {
                if k == 0 {
                    self.done = true;
                    break;
                }
                k -= 1;
                self.idx[k] += 1;
                if self.idx[k] < self.shape[k] {
                    break;
                }
                self.idx[k] = 0;
            }
        }
        Some(off)
    }
}

fn device() -> WgpuDevice {
    WgpuDevice::new(WgpuDevice::default_limits())
}

/// Creates a reference, binds it, and fills its host buffer with `data`.
fn input_buffer(dev: &mut WgpuDevice, gpu: &mut HostGpu, data: &[u8]) -> usize {
    let r = dev.cache.create_buffer_reference(data.len() as u64, true);
    let (sid, _) = dev.cache.bind_buffer(r);
    gpu.bufs.insert(sid, data.to_vec());
    r
}

fn storage_of(dev: &WgpuDevice, r: usize) -> usize {
    dev.cache.buffer_references[r].storage.unwrap()
}

#[test]
fn convert_f32_u32_f32_round_trips_integer_valued_floats() {
    let mut dev = device();
    let mut gpu = HostGpu::new();
    let n: u32 = 100;
    let data: Vec<u8> = (0..n).flat_map(|i| (i as f32).to_le_bytes()).collect();
    let a = input_buffer(&mut dev, &mut gpu, &data);
    let b = dev.cache.create_buffer_reference(n as u64 * 4, true);
    let c = dev.cache.create_buffer_reference(n as u64 * 4, true);
    let layout = Layout::contiguous(&vec![n]);
    queue_convert_f32_to_u32(&mut dev, b, a, &layout).unwrap();
    queue_convert_u32_to_f32(&mut dev, c, b, &layout).unwrap();
    let plans = flush_gpu_command(&mut dev);
    gpu.run(&plans);
    let sid_c = storage_of(&dev, c);
    for i in 0..n as usize {
        assert_eq!(gpu.read_f32(sid_c, i), i as f32);
    }
}

#[test]
fn contiguous_unary_read_back_matches_the_host_computation() {
    let mut dev = device();
    let mut gpu = HostGpu::new();
    let n: u32 = 1000;
    let values: Vec<f32> = (0..n).map(|i| i as f32 - 500.0).collect();
    let data: Vec<u8> = values.iter().flat_map(|v| v.to_le_bytes()).collect();
    let a = input_buffer(&mut dev, &mut gpu, &data);
    let dest = dev.cache.create_buffer_reference(n as u64 * 4, true);
    let layout = Layout::contiguous(&vec![n]);
    queue_unary_from_buffer_op(&mut dev, dest, a, OP_NEG, HostDType::F32, &layout).unwrap();
    let plans = flush_gpu_command(&mut dev);
    gpu.run(&plans);
    let sid = storage_of(&dev, dest);
    for (i, v) in values.iter().enumerate() {
        assert_eq!(gpu.read_f32(sid, i), -v);
    }
}

#[test]
fn in_place_unary_produces_the_same_bytes_as_the_out_of_place_path() {
    let mut dev = device();
    let mut gpu = HostGpu::new();
    let n: u32 = 256;
    let values: Vec<f32> = (0..n).map(|i| i as f32).collect();
    let data: Vec<u8> = values.iter().flat_map(|v| v.to_le_bytes()).collect();
    let a = input_buffer(&mut dev, &mut gpu, &data);
    let dest = dev.cache.create_buffer_reference(n as u64 * 4, true);
    let layout = Layout::contiguous(&vec![n]);
    queue_unary_from_buffer_op(&mut dev, dest, a, OP_NEG, HostDType::F32, &layout).unwrap();
    // drop the caller's handle so the planner rewrites in place
    dev.cache.release_buffer_reference(a);
    let plans = flush_gpu_command(&mut dev);
    assert!(matches!(
        plans[0].dispatches[0].pipeline.0,
        Pipelines::Unary(_, UnaryFunctions::UnaryInplaceContiguous)
    ));
    gpu.run(&plans);
    let sid = storage_of(&dev, dest);
    for (i, v) in values.iter().enumerate() {
        assert_eq!(gpu.read_f32(sid, i), -v);
    }
}

#[test]
fn read_back_after_a_copy_unary_binary_chain_matches_the_host() {
    let mut dev = device();
    let mut gpu = HostGpu::new();
    let n: u32 = 128;
    let xs: Vec<f32> = (0..n).map(|i| i as f32 * 0.5).collect();
    let ys: Vec<f32> = (0..n).map(|i| 1000.0 - i as f32).collect();
    let xbytes: Vec<u8> = xs.iter().flat_map(|v| v.to_le_bytes()).collect();
    let ybytes: Vec<u8> = ys.iter().flat_map(|v| v.to_le_bytes()).collect();
    let a = input_buffer(&mut dev, &mut gpu, &xbytes);
    let y = input_buffer(&mut dev, &mut gpu, &ybytes);
    let b = dev.cache.create_buffer_reference(n as u64 * 4, true);
    let c = dev.cache.create_buffer_reference(n as u64 * 4, true);
    let d = dev.cache.create_buffer_reference(n as u64 * 4, true);
    let layout = Layout::contiguous(&vec![n]);
    // copy a -> b, negate b -> c, add (c, y) -> d
    queue_copy(&mut dev, b, a, HostDType::F32, 0, 0, n).unwrap();
    queue_unary_from_buffer_op(&mut dev, c, b, OP_NEG, HostDType::F32, &layout).unwrap();
    queue_binary_buffer_from_buffer(&mut dev, d, c, y, OP_ADD, HostDType::F32, &layout, &layout)
        .unwrap();
    let (plans, storage) = read_data_from_gpu(&mut dev, d);
    gpu.run(&plans);
    let sid = storage.unwrap();
    for i in 0..n as usize {
        let expected = -xs[i] + ys[i];
        assert_eq!(gpu.read_f32(sid, i), expected);
    }
}

#[test]
fn dispatches_downstream_of_an_elided_copy_observe_the_input_data() {
    let mut dev = device();
    let mut gpu = HostGpu::new();
    let n: u32 = 64;
    let values: Vec<f32> = (0..n).map(|i| i as f32 + 0.25).collect();
    let data: Vec<u8> = values.iter().flat_map(|v| v.to_le_bytes()).collect();
    let a = input_buffer(&mut dev, &mut gpu, &data);
    let b = dev.cache.create_buffer_reference(n as u64 * 4, true);
    let c = dev.cache.create_buffer_reference(n as u64 * 4, true);
    let layout = Layout::contiguous(&vec![n]);
    queue_copy(&mut dev, b, a, HostDType::F32, 0, 0, n).unwrap();
    queue_unary_from_buffer_op(&mut dev, c, b, OP_NEG, HostDType::F32, &layout).unwrap();
    // the copy's input is now held only by the queue: the copy is elided
    // and its storage moves to the copy's destination
    dev.cache.release_buffer_reference(a);
    let plans = flush_gpu_command(&mut dev);
    let total: usize = plans.iter().map(|p| p.dispatches.len()).sum();
    assert_eq!(total, 1);
    gpu.run(&plans);
    let sid = storage_of(&dev, c);
    for (i, v) in values.iter().enumerate() {
        assert_eq!(gpu.read_f32(sid, i), -v);
    }
}
