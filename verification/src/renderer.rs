use vstd::prelude::*;

use vstd::arithmetic::div_mod::{
    lemma_div_denominator, lemma_div_is_ordered, lemma_fundamental_div_mod,
};

use crate::dispatch::{grid_for, spec_workgroups, DispatchGrid, TILE_HEIGHT, TILE_WIDTH};
use crate::error::RenderError;
use crate::layout::{
    bind_group_matches, generation_layout, spec_generation_layout, validate_bind_group,
    BindGroupEntrySpec, BindingSlot, BoundResource, ResourceKind,
};
use crate::pixel::{output_size_bytes, spec_le_u32_at, spec_output_size, RecordLayout};

verus! {

/// The four little-endian bytes of a 32-bit value.
pub open spec fn spec_le_bytes(x: u32) -> Seq<u8> {
    seq![
        (x % 256) as u8,
        ((x / 256) % 256) as u8,
        ((x / 65536) % 256) as u8,
        ((x / 16777216) % 256) as u8,
    ]
}

/// The contents of the uniform resolution record handed to the kernels:
/// `width` then `height`, each as four little-endian bytes.
pub open spec fn spec_resolution_bytes(width: u32, height: u32) -> Seq<u8> {
    spec_le_bytes(width) + spec_le_bytes(height)
}

/// The little-endian bytes of `x` really encode `x`.
pub proof fn lemma_le_bytes_encode(x: u32)
    ensures
        spec_le_u32_at(spec_le_bytes(x), 0) == x,
{
    lemma_fundamental_div_mod(x as int, 256);
    lemma_fundamental_div_mod(x as int / 256, 256);
    lemma_fundamental_div_mod(x as int / 65536, 256);
    lemma_div_denominator(x as int, 256, 256);
    lemma_div_denominator(x as int, 65536, 256);
    lemma_div_is_ordered(x as int, 0xffffffff, 16777216);
    assert(x as int / 16777216 < 256);
}

/// The resolution record encodes the resolution: its first four bytes read
/// back as `width` and its last four as `height`.
pub proof fn lemma_resolution_bytes_encode(width: u32, height: u32)
    ensures
        spec_resolution_bytes(width, height).len() == 8,
        spec_le_u32_at(spec_resolution_bytes(width, height), 0) == width,
        spec_le_u32_at(spec_resolution_bytes(width, height), 4) == height,
{
    lemma_le_bytes_encode(width);
    lemma_le_bytes_encode(height);
    let s = spec_resolution_bytes(width, height);
    assert(s[0] == spec_le_bytes(width)[0]);
    assert(s[1] == spec_le_bytes(width)[1]);
    assert(s[2] == spec_le_bytes(width)[2]);
    assert(s[3] == spec_le_bytes(width)[3]);
    assert(s[4] == spec_le_bytes(height)[0]);
    assert(s[5] == spec_le_bytes(height)[1]);
    assert(s[6] == spec_le_bytes(height)[2]);
    assert(s[7] == spec_le_bytes(height)[3]);
}

/// The uniform resolution record for one render.
pub fn resolution_bytes(width: u32, height: u32) -> (r: Vec<u8>)
    ensures
        r@ == spec_resolution_bytes(width, height),
        r@.len() == 8,
{
    let mut v: Vec<u8> = Vec::new();
    v.push((width % 256) as u8);
    v.push(((width / 256) % 256) as u8);
    v.push(((width / 65536) % 256) as u8);
    v.push(((width / 16777216) % 256) as u8);
    v.push((height % 256) as u8);
    v.push(((height / 256) % 256) as u8);
    v.push(((height / 65536) % 256) as u8);
    v.push(((height / 16777216) % 256) as u8);
    proof {
        assert(v@ =~= spec_resolution_bytes(width, height));
    }
    v
}

/// Everything one render pass needs decided before any resource is created:
/// sizes, the uniform record, the workgroup grid, the generation stage's
/// binding layout and the bind group that will fill it. The unverified
/// driver creates each resource exactly as the plan says and never computes
/// a size or count of its own.
pub struct RenderPlan {
    pub width: u32,
    pub height: u32,
    pub record_layout: RecordLayout,
    /// Size in bytes of the kernel output resource and of the staging
    /// resource it is copied into: the two are identical.
    pub output_size: u64,
    /// Bytes per row of the output image, `width * record_size`.
    pub bytes_per_row: u32,
    /// Contents of the uniform resolution record.
    pub uniform_bytes: Vec<u8>,
    /// Workgroup counts for the generation dispatch.
    pub grid: DispatchGrid,
    /// The binding layout the generation kernel declares.
    pub layout_slots: Vec<BindingSlot>,
    /// The bind group the driver builds, slot for slot against the layout.
    pub bind_entries: Vec<BindGroupEntrySpec>,
}

impl RenderPlan {
    /// A well-formed plan: sizes agree with the resolution and record
    /// layout, the grid covers the image, and the bind group matches the
    /// declared binding layout, so dispatching it cannot raise a layout
    /// mismatch at the device.
    pub open spec fn wf(self) -> bool {
        &&& self.width > 0
        &&& self.height > 0
        &&& self.output_size == spec_output_size(
            self.width as int,
            self.height as int,
            self.record_layout,
        )
        &&& self.output_size == self.bytes_per_row * self.height
        &&& self.uniform_bytes@ == spec_resolution_bytes(self.width, self.height)
        &&& self.grid.covers(self.width as int, self.height as int)
        &&& bind_group_matches(self.bind_entries@, self.layout_slots@)
    }
}

/// The plan a given request determines, field for field: two requests with
/// the same resolution and record layout determine the same plan.
pub open spec fn plan_matches(
    plan: RenderPlan,
    width: u32,
    height: u32,
    layout: RecordLayout,
) -> bool {
    &&& plan.width == width
    &&& plan.height == height
    &&& plan.record_layout == layout
    &&& plan.output_size == spec_output_size(width as int, height as int, layout)
    &&& plan.bytes_per_row == width as int * crate::pixel::spec_record_size(layout)
    &&& plan.uniform_bytes@ == spec_resolution_bytes(width, height)
    &&& plan.grid == (DispatchGrid {
        x: spec_workgroups(width as int, TILE_WIDTH as int) as u32,
        y: spec_workgroups(height as int, TILE_HEIGHT as int) as u32,
        z: 1u32,
    })
    &&& plan.layout_slots@ == spec_generation_layout()
    &&& plan.bind_entries@ == spec_generation_entries(plan.output_size)
}

/// The bind group one render builds for the generation stage: the output
/// storage texture at binding 0 and the 8-byte resolution uniform at
/// binding 1.
pub open spec fn spec_generation_entries(output_size: u64) -> Seq<BindGroupEntrySpec> {
    seq![
        BindGroupEntrySpec {
            binding: 0,
            resource: BoundResource { kind: ResourceKind::StorageTexture, size: 0 },
        },
        BindGroupEntrySpec {
            binding: 1,
            resource: BoundResource { kind: ResourceKind::UniformBuffer, size: 8 },
        },
    ]
}

/// Decides one whole render pass up front: resource sizes, uniform
/// contents, workgroup counts, and a bind group checked against the
/// generation layout before anything reaches the device.
///
/// The resolution must be positive; a zero dimension or a size beyond what
/// 64-bit (for the buffers) or 32-bit (for one row) arithmetic can carry is
/// a caller error, rejected before this point.
pub fn plan_render(width: u32, height: u32, layout: RecordLayout) -> (r: Result<
    RenderPlan,
    RenderError,
>)
    requires
        width > 0,
        height > 0,
        width as int * crate::pixel::spec_record_size(layout) <= u32::MAX,
        spec_output_size(width as int, height as int, layout) <= u64::MAX,
    ensures
        r is Ok,
        r matches Ok(plan) ==> plan.wf() && plan_matches(plan, width, height, layout),
{
    let output_size: u64 = output_size_bytes(width, height, layout);
    let bytes_per_row: u32 = width * crate::pixel::record_size(layout);
    proof {
        assert(bytes_per_row as int * height as int == spec_output_size(
            width as int,
            height as int,
            layout,
        )) by (nonlinear_arith)
            requires
                bytes_per_row as int == width as int * crate::pixel::spec_record_size(layout),
        ;
    }
    let uniform_bytes = resolution_bytes(width, height);
    let grid = grid_for(width, height);
    let layout_slots = generation_layout();
    let mut bind_entries: Vec<BindGroupEntrySpec> = Vec::new();
    bind_entries.push(
        BindGroupEntrySpec {
            binding: 0,
            resource: BoundResource { kind: ResourceKind::StorageTexture, size: 0 },
        },
    );
    bind_entries.push(
        BindGroupEntrySpec {
            binding: 1,
            resource: BoundResource { kind: ResourceKind::UniformBuffer, size: 8 },
        },
    );
    proof {
        assert(bind_entries@ =~= spec_generation_entries(output_size));
    }
    match validate_bind_group(&bind_entries, &layout_slots) {
        Ok(()) => Ok(
            RenderPlan {
                width,
                height,
                record_layout: layout,
                output_size,
                bytes_per_row,
                uniform_bytes,
                grid,
                layout_slots,
                bind_entries,
            },
        ),
        Err(e) => Err(e),
    }
}

/// What the readback's outcome determines: the map-failure signal, and a
/// successful map whose bytes do not have the promised size, both surface
/// as `ReadbackFailed`; only a complete copy of `output_size` bytes is
/// returned, and returned unchanged.
pub open spec fn spec_finish(output_size: int, mapped: Option<Seq<u8>>) -> Result<
    Seq<u8>,
    RenderError,
> {
    match mapped {
        Option::None => Result::Err(RenderError::ReadbackFailed),
        Option::Some(bytes) => if bytes.len() == output_size {
            Result::Ok(bytes)
        } else {
            Result::Err(RenderError::ReadbackFailed)
        },
    }
}

/// The view of a finished readback's result.
pub open spec fn spec_result_view(r: Result<Vec<u8>, RenderError>) -> Result<Seq<u8>, RenderError> {
    match r {
        Result::Ok(v) => Result::Ok(v@),
        Result::Err(e) => Result::Err(e),
    }
}

/// The view of what the driver hands back: the copied bytes on map success,
/// nothing on map failure.
pub open spec fn spec_mapped_view(mapped: Option<Vec<u8>>) -> Option<Seq<u8>> {
    match mapped {
        Option::Some(v) => Option::Some(v@),
        Option::None => Option::None,
    }
}

/// Finishes one readback: `mapped` is `None` when the map-for-read request
/// signalled failure, else the bytes copied out of the mapped range before
/// the unmap. Failure, and bytes of any length other than the plan's
/// `output_size` (partial or empty data), surface as `ReadbackFailed`;
/// nothing is returned silently truncated.
pub fn finish_readback(plan: &RenderPlan, mapped: Option<Vec<u8>>) -> (r: Result<
    Vec<u8>,
    RenderError,
>)
    ensures
        spec_result_view(r) == spec_finish(plan.output_size as int, spec_mapped_view(mapped)),
{
    match mapped {
        Option::None => Err(RenderError::ReadbackFailed),
        Option::Some(bytes) => {
            if bytes.len() as u64 == plan.output_size {
                Ok(bytes)
            } else {
                Err(RenderError::ReadbackFailed)
            }
        },
    }
}

/// Whenever a render returns bytes at all, it returns exactly
/// `width * height * record_size` of them: the plan fixes the staging size
/// at that product, and finishing the readback returns bytes of exactly the
/// staging size or fails.
pub proof fn lemma_render_length(
    plan: RenderPlan,
    width: u32,
    height: u32,
    layout: RecordLayout,
    mapped: Option<Seq<u8>>,
)
    requires
        plan_matches(plan, width, height, layout),
    ensures
        spec_finish(plan.output_size as int, mapped) matches Ok(bytes) ==> bytes.len()
            == width as int * height as int * crate::pixel::spec_record_size(layout),
{
}

/// A failed map never yields bytes, and bytes are never invented: a render
/// either fails with `ReadbackFailed` or returns precisely the mapped bytes.
pub proof fn lemma_no_silent_partial_readback(output_size: int, mapped: Option<Seq<u8>>)
    ensures
        mapped is None ==> spec_finish(output_size, mapped) == Result::<
            Seq<u8>,
            RenderError,
        >::Err(RenderError::ReadbackFailed),
        spec_finish(output_size, mapped) matches Ok(bytes) ==> mapped == Option::Some(bytes)
            && bytes.len() == output_size,
{
}

/// The pipeline is deterministic up to the device: the same resolution and
/// record layout determine equal plans, and equal readback bytes finish to
/// equal results. Two sequential renders whose kernels wrote the same bytes
/// return identical output.
pub proof fn lemma_render_deterministic(
    plan1: RenderPlan,
    plan2: RenderPlan,
    width: u32,
    height: u32,
    layout: RecordLayout,
    mapped: Option<Seq<u8>>,
)
    requires
        plan_matches(plan1, width, height, layout),
        plan_matches(plan2, width, height, layout),
    ensures
        plan1.width == plan2.width,
        plan1.height == plan2.height,
        plan1.record_layout == plan2.record_layout,
        plan1.output_size == plan2.output_size,
        plan1.bytes_per_row == plan2.bytes_per_row,
        plan1.uniform_bytes@ == plan2.uniform_bytes@,
        plan1.grid == plan2.grid,
        plan1.layout_slots@ == plan2.layout_slots@,
        plan1.bind_entries@ == plan2.bind_entries@,
        spec_finish(plan1.output_size as int, mapped) == spec_finish(
            plan2.output_size as int,
            mapped,
        ),
{
}

} // verus!
