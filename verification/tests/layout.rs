use raytracing::error::RenderError;
use raytracing::layout::{
    generation_layout, validate_bind_group, BindGroupEntrySpec, BindingSlot, BoundResource,
    ResourceKind,
};
use raytracing::pipeline::{stage_order, KernelStage, RenderMode};

fn matching_entries() -> Vec<BindGroupEntrySpec> {
    vec![
        BindGroupEntrySpec {
            binding: 0,
            resource: BoundResource { kind: ResourceKind::StorageTexture, size: 0 },
        },
        BindGroupEntrySpec {
            binding: 1,
            resource: BoundResource { kind: ResourceKind::UniformBuffer, size: 8 },
        },
    ]
}

#[test]
fn generation_layout_declares_texture_and_uniform() {
    let slots = generation_layout();
    assert_eq!(
        slots,
        vec![
            BindingSlot { binding: 0, kind: ResourceKind::StorageTexture, min_size: 0 },
            BindingSlot { binding: 1, kind: ResourceKind::UniformBuffer, min_size: 8 },
        ]
    );
}

#[test]
fn matching_bind_group_is_accepted() {
    assert!(validate_bind_group(&matching_entries(), &generation_layout()).is_ok());
}

#[test]
fn wrong_binding_index_is_a_layout_mismatch() {
    let mut entries = matching_entries();
    entries[1].binding = 2;
    assert_eq!(
        validate_bind_group(&entries, &generation_layout()),
        Err(RenderError::LayoutMismatch)
    );
}

#[test]
fn wrong_resource_kind_is_a_layout_mismatch() {
    let mut entries = matching_entries();
    entries[0].resource.kind = ResourceKind::StorageBuffer;
    assert_eq!(
        validate_bind_group(&entries, &generation_layout()),
        Err(RenderError::LayoutMismatch)
    );
}

#[test]
fn undersized_uniform_is_a_layout_mismatch() {
    let mut entries = matching_entries();
    entries[1].resource.size = 4;
    assert_eq!(
        validate_bind_group(&entries, &generation_layout()),
        Err(RenderError::LayoutMismatch)
    );
}

#[test]
fn missing_or_extra_entries_are_a_layout_mismatch() {
    let mut entries = matching_entries();
    entries.pop();
    assert_eq!(
        validate_bind_group(&entries, &generation_layout()),
        Err(RenderError::LayoutMismatch)
    );
    let mut entries = matching_entries();
    entries.push(BindGroupEntrySpec {
        binding: 2,
        resource: BoundResource { kind: ResourceKind::StorageBuffer, size: 16 },
    });
    assert_eq!(
        validate_bind_group(&entries, &generation_layout()),
        Err(RenderError::LayoutMismatch)
    );
}

#[test]
fn single_pass_dispatches_generation_only() {
    assert_eq!(stage_order(RenderMode::SinglePass), vec![KernelStage::Generation]);
}

#[test]
fn multi_stage_order_starts_with_generation() {
    let stages = stage_order(RenderMode::MultiStage);
    assert_eq!(stages.len(), 5);
    assert_eq!(stages[0], KernelStage::Generation);
    assert_eq!(
        stages,
        vec![
            KernelStage::Generation,
            KernelStage::Intersection,
            KernelStage::AnyHit,
            KernelStage::ClosestHit,
            KernelStage::Miss,
        ]
    );
}
