use vstd::prelude::*;

verus! {

/// The kernel stages a pipeline set may compile. Only `Generation` is
/// mandatory: single-pass rendering binds and dispatches it alone.
#[derive(Clone, Copy, Debug, PartialEq, Eq, Structural)]
pub enum KernelStage {
    Generation,
    ClosestHit,
    AnyHit,
    Miss,
    Intersection,
}

/// Whether a render dispatches only the generation kernel or the full set of
/// tracing stages. Multi-stage tracing is an explicit mode, so single-pass
/// renders never bind or dispatch the unused stages.
#[derive(Clone, Copy, Debug, PartialEq, Eq, Structural)]
pub enum RenderMode {
    SinglePass,
    MultiStage,
}

/// The fixed order in which a multi-stage render dispatches its kernels.
pub open spec fn spec_multi_stage_order() -> Seq<KernelStage> {
    seq![
        KernelStage::Generation,
        KernelStage::Intersection,
        KernelStage::AnyHit,
        KernelStage::ClosestHit,
        KernelStage::Miss,
    ]
}

/// The stages one render dispatches, in dispatch order.
///
/// Generation always comes first; the tracing stages follow only in
/// multi-stage mode.
pub fn stage_order(mode: RenderMode) -> (r: Vec<KernelStage>)
    ensures
        mode == RenderMode::SinglePass ==> r@ == seq![KernelStage::Generation],
        mode == RenderMode::MultiStage ==> r@ == spec_multi_stage_order(),
        r@.len() > 0,
        r@[0] == KernelStage::Generation,
{
    match mode {
        RenderMode::SinglePass => {
            let mut v: Vec<KernelStage> = Vec::new();
            v.push(KernelStage::Generation);
            proof {
                assert(v@ =~= seq![KernelStage::Generation]);
            }
            v
        }
        RenderMode::MultiStage => {
            let mut v: Vec<KernelStage> = Vec::new();
            v.push(KernelStage::Generation);
            v.push(KernelStage::Intersection);
            v.push(KernelStage::AnyHit);
            v.push(KernelStage::ClosestHit);
            v.push(KernelStage::Miss);
            proof {
                assert(v@ =~= spec_multi_stage_order());
            }
            v
        }
    }
}

} // verus!
