use vstd::prelude::*;

use crate::error::RenderError;

verus! {

/// The resource kinds a binding slot can declare. Every slot is visible to
/// the compute stage; this model carries no other visibility.
#[derive(Clone, Copy, Debug, PartialEq, Eq, Structural)]
pub enum ResourceKind {
    StorageTexture,
    UniformBuffer,
    StorageBuffer,
}

/// One slot of a pipeline's declared binding layout: its binding index, the
/// kind of resource it expects, and, for buffer slots, the least size in
/// bytes a bound buffer must have. `min_size` is 0 for texture slots.
#[derive(Clone, Copy, Debug, PartialEq, Eq, Structural)]
pub struct BindingSlot {
    pub binding: u32,
    pub kind: ResourceKind,
    pub min_size: u64,
}

/// A concrete resource offered for one slot of a bind group: its kind and,
/// for buffers, its size in bytes. `size` is 0 for texture views.
#[derive(Clone, Copy, Debug, PartialEq, Eq, Structural)]
pub struct BoundResource {
    pub kind: ResourceKind,
    pub size: u64,
}

/// One entry of a concrete bind group: the binding index it fills and the
/// resource bound there.
#[derive(Clone, Copy, Debug, PartialEq, Eq, Structural)]
pub struct BindGroupEntrySpec {
    pub binding: u32,
    pub resource: BoundResource,
}

/// One entry agrees with one layout slot: same binding index, same resource
/// kind, and a buffer no smaller than the slot's declared minimum.
pub open spec fn entry_matches_slot(entry: BindGroupEntrySpec, slot: BindingSlot) -> bool {
    &&& entry.binding == slot.binding
    &&& entry.resource.kind == slot.kind
    &&& entry.resource.size >= slot.min_size
}

/// A bind group agrees with a binding layout exactly: slot for slot, in
/// order, with nothing missing and nothing extra.
pub open spec fn bind_group_matches(
    entries: Seq<BindGroupEntrySpec>,
    slots: Seq<BindingSlot>,
) -> bool {
    &&& entries.len() == slots.len()
    &&& forall|i: int| 0 <= i < entries.len() ==> entry_matches_slot(entries[i], slots[i])
}

/// Static bind-group validation: accepts exactly the bind groups that agree
/// with the layout, and reports every disagreement as `LayoutMismatch`
/// before anything is handed to the device.
pub fn validate_bind_group(
    entries: &Vec<BindGroupEntrySpec>,
    slots: &Vec<BindingSlot>,
) -> (r: Result<(), RenderError>)
    ensures
        r is Ok <==> bind_group_matches(entries@, slots@),
        r is Err ==> r == Err::<(), RenderError>(RenderError::LayoutMismatch),
{
    if entries.len() != slots.len() {
        return Err(RenderError::LayoutMismatch);
    }
    let n = entries.len();
    let mut i: usize = 0;
    while i < n
        invariant
            n == entries@.len() == slots@.len(),
            0 <= i <= n,
            forall|j: int| 0 <= j < i ==> entry_matches_slot(entries@[j], slots@[j]),
        decreases n - i,
    {
        let entry = entries[i];
        let slot = slots[i];
        if entry.binding != slot.binding {
            return Err(RenderError::LayoutMismatch);
        }
        if entry.resource.kind != slot.kind {
            return Err(RenderError::LayoutMismatch);
        }
        if entry.resource.size < slot.min_size {
            return Err(RenderError::LayoutMismatch);
        }
        i += 1;
    }
    Ok(())
}

/// The binding layout the ray-generation kernel declares: a write-only
/// storage texture at binding 0 for the output image, and at binding 1 a
/// uniform buffer of at least 8 bytes carrying the resolution.
pub open spec fn spec_generation_layout() -> Seq<BindingSlot> {
    seq![
        BindingSlot { binding: 0, kind: ResourceKind::StorageTexture, min_size: 0 },
        BindingSlot { binding: 1, kind: ResourceKind::UniformBuffer, min_size: 8 },
    ]
}

/// The declared binding layout of the ray-generation stage.
pub fn generation_layout() -> (r: Vec<BindingSlot>)
    ensures
        r@ == spec_generation_layout(),
{
    let mut v: Vec<BindingSlot> = Vec::new();
    v.push(BindingSlot { binding: 0, kind: ResourceKind::StorageTexture, min_size: 0 });
    v.push(BindingSlot { binding: 1, kind: ResourceKind::UniformBuffer, min_size: 8 });
    proof {
        assert(v@ =~= spec_generation_layout());
    }
    v
}

} // verus!
