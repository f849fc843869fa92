//! Bind-group references: which logical buffers a dispatch binds, and in
//! which of the six pipeline layouts.
//!
//! Binding 0 is always the destination, binding 1 the shared metadata buffer
//! at a dynamic offset, bindings 2..4 the inputs. An extra flag selects the
//! variant layout with a 16-byte minimum binding size.

use vstd::prelude::*;

verus! {

/// A dispatch's buffer bindings before materialization: logical buffer
/// reference ids, destination first.
#[derive(Clone, Copy, Debug, PartialEq, Eq, Structural)]
pub enum BindGroupReference {
    Bindgroup0(usize),
    Bindgroup1(usize, usize, bool),
    Bindgroup2(usize, usize, usize, bool),
    Bindgroup3(usize, usize, usize, usize),
}

/// The six pipeline layouts a device exposes, one per bind-group arity plus
/// the two variants with a 16-byte minimum binding size.
#[derive(Clone, Copy, Debug, PartialEq, Eq, Structural)]
pub enum PipelineLayoutKind {
    Layout0,
    Layout1,
    Layout1B16,
    Layout2,
    Layout2B16,
    Layout3,
}

/// All buffer reference ids a bind group touches, destination first.
pub open spec fn bg_members(bg: BindGroupReference) -> Seq<usize> {
    match bg {
        BindGroupReference::Bindgroup0(v0) => seq![v0],
        BindGroupReference::Bindgroup1(v0, v1, _) => seq![v0, v1],
        BindGroupReference::Bindgroup2(v0, v1, v2, _) => seq![v0, v1, v2],
        BindGroupReference::Bindgroup3(v0, v1, v2, v3) => seq![v0, v1, v2, v3],
    }
}

/// The destination buffer reference of a bind group.
pub open spec fn bg_dest(bg: BindGroupReference) -> usize {
    match bg {
        BindGroupReference::Bindgroup0(v0) => v0,
        BindGroupReference::Bindgroup1(v0, _, _) => v0,
        BindGroupReference::Bindgroup2(v0, _, _, _) => v0,
        BindGroupReference::Bindgroup3(v0, _, _, _) => v0,
    }
}

/// Which pipeline layout a bind-group reference selects.
pub open spec fn bg_layout_kind_spec(bg: BindGroupReference) -> PipelineLayoutKind {
    match bg {
        BindGroupReference::Bindgroup0(_) => PipelineLayoutKind::Layout0,
        BindGroupReference::Bindgroup1(_, _, false) => PipelineLayoutKind::Layout1,
        BindGroupReference::Bindgroup1(_, _, true) => PipelineLayoutKind::Layout1B16,
        BindGroupReference::Bindgroup2(_, _, _, false) => PipelineLayoutKind::Layout2,
        BindGroupReference::Bindgroup2(_, _, _, true) => PipelineLayoutKind::Layout2B16,
        BindGroupReference::Bindgroup3(_, _, _, _) => PipelineLayoutKind::Layout3,
    }
}

pub fn bg_layout_kind(bg: &BindGroupReference) -> (r: PipelineLayoutKind)
    ensures
        r == bg_layout_kind_spec(*bg),
{
    match bg {
        BindGroupReference::Bindgroup0(_) => PipelineLayoutKind::Layout0,
        BindGroupReference::Bindgroup1(_, _, false) => PipelineLayoutKind::Layout1,
        BindGroupReference::Bindgroup1(_, _, true) => PipelineLayoutKind::Layout1B16,
        BindGroupReference::Bindgroup2(_, _, _, false) => PipelineLayoutKind::Layout2,
        BindGroupReference::Bindgroup2(_, _, _, true) => PipelineLayoutKind::Layout2B16,
        BindGroupReference::Bindgroup3(_, _, _, _) => PipelineLayoutKind::Layout3,
    }
}

/// The member ids of a bind-group reference, destination first.
pub fn bg_member_vec(bg: &BindGroupReference) -> (r: Vec<usize>)
    ensures
        r@ == bg_members(*bg),
{
    let mut r: Vec<usize> = Vec::new();
    match bg {
        BindGroupReference::Bindgroup0(v0) => {
            r.push(*v0);
        },
        BindGroupReference::Bindgroup1(v0, v1, _) => {
            r.push(*v0);
            r.push(*v1);
        },
        BindGroupReference::Bindgroup2(v0, v1, v2, _) => {
            r.push(*v0);
            r.push(*v1);
            r.push(*v2);
        },
        BindGroupReference::Bindgroup3(v0, v1, v2, v3) => {
            r.push(*v0);
            r.push(*v1);
            r.push(*v2);
            r.push(*v3);
        },
    }
    proof {
        assert(r@ =~= bg_members(*bg));
    }
    r
}

/// A materialized bind group: the concrete storage buffers bound for one
/// dispatch, destination first, plus the layout flag.
#[derive(Debug)]
pub struct CachedBindgroupBuffers {
    pub dest: usize,
    pub inputs: Vec<usize>,
    pub min_binding_16: bool,
}

impl CachedBindgroupBuffers {
    pub open spec fn wf(&self) -> bool {
        self.inputs@.len() <= 3
    }
}

/// Whether two materialized bind groups bind the same buffers in the same
/// layout.
pub fn cached_bindgroups_equal(a: &CachedBindgroupBuffers, b: &CachedBindgroupBuffers) -> (r: bool)
    ensures
        r == (a.dest == b.dest && a.inputs@ == b.inputs@ && a.min_binding_16 == b.min_binding_16),
{
    if a.dest != b.dest || a.min_binding_16 != b.min_binding_16 || a.inputs.len() != b.inputs.len()
    {
        proof {
            if a.inputs@.len() != b.inputs@.len() {
                assert(a.inputs@ != b.inputs@);
            }
        }
        return false;
    }
    let n = a.inputs.len();
    let mut i: usize = 0;
    while i < n
        invariant
            0 <= i <= n,
            n == a.inputs@.len(),
            n == b.inputs@.len(),
            forall|k: int| 0 <= k < i ==> a.inputs@[k] == b.inputs@[k],
        decreases n - i,
    {
        if a.inputs[i] != b.inputs[i] {
            return false;
        }
        i += 1;
    }
    proof {
        assert(a.inputs@ =~= b.inputs@);
    }
    true
}

pub fn create_bind_group_input0(buffer_dest: usize) -> (r: BindGroupReference)
    ensures
        r == BindGroupReference::Bindgroup0(buffer_dest),
{
    BindGroupReference::Bindgroup0(buffer_dest)
}

pub fn create_bind_group_input1(buffer_dest: usize, buffer_input1: usize) -> (r: BindGroupReference)
    ensures
        r == BindGroupReference::Bindgroup1(buffer_dest, buffer_input1, false),
{
    BindGroupReference::Bindgroup1(buffer_dest, buffer_input1, false)
}

pub fn create_bind_group_input1_16(buffer_dest: usize, buffer_input1: usize) -> (r:
    BindGroupReference)
    ensures
        r == BindGroupReference::Bindgroup1(buffer_dest, buffer_input1, true),
{
    BindGroupReference::Bindgroup1(buffer_dest, buffer_input1, true)
}

pub fn create_bind_group_input2(
    buffer_dest: usize,
    buffer_input1: usize,
    buffer_input2: usize,
) -> (r: BindGroupReference)
    ensures
        r == BindGroupReference::Bindgroup2(buffer_dest, buffer_input1, buffer_input2, false),
{
    BindGroupReference::Bindgroup2(buffer_dest, buffer_input1, buffer_input2, false)
}

pub fn create_bind_group_input2_16(
    buffer_dest: usize,
    buffer_input1: usize,
    buffer_input2: usize,
) -> (r: BindGroupReference)
    ensures
        r == BindGroupReference::Bindgroup2(buffer_dest, buffer_input1, buffer_input2, true),
{
    BindGroupReference::Bindgroup2(buffer_dest, buffer_input1, buffer_input2, true)
}

pub fn create_bind_group_input3(
    buffer_dest: usize,
    buffer_input1: usize,
    buffer_input2: usize,
    buffer_input3: usize,
) -> (r: BindGroupReference)
    ensures
        r == BindGroupReference::Bindgroup3(
            buffer_dest,
            buffer_input1,
            buffer_input2,
            buffer_input3,
        ),
{
    BindGroupReference::Bindgroup3(buffer_dest, buffer_input1, buffer_input2, buffer_input3)
}

} // verus!
