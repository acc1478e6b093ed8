use raytracing::protocol::{step, DispatchEvent, DispatchPhase};

#[test]
fn happy_path_runs_to_unmapped() {
    let mut phase = DispatchPhase::Idle;
    for event in [
        DispatchEvent::Submit,
        DispatchEvent::RequestMap,
        DispatchEvent::MapSuccess,
        DispatchEvent::CopyOut,
        DispatchEvent::Unmap,
    ] {
        phase = step(phase, event).unwrap();
    }
    assert_eq!(phase, DispatchPhase::Unmapped);
}

#[test]
fn map_failure_path_ends_in_map_failed() {
    let mut phase = DispatchPhase::Idle;
    for event in [
        DispatchEvent::Submit,
        DispatchEvent::RequestMap,
        DispatchEvent::MapFailure,
    ] {
        phase = step(phase, event).unwrap();
    }
    assert_eq!(phase, DispatchPhase::MapFailed);
}

#[test]
fn terminal_phases_accept_no_event() {
    for terminal in [DispatchPhase::Unmapped, DispatchPhase::MapFailed] {
        for event in [
            DispatchEvent::Submit,
            DispatchEvent::RequestMap,
            DispatchEvent::MapSuccess,
            DispatchEvent::MapFailure,
            DispatchEvent::CopyOut,
            DispatchEvent::Unmap,
        ] {
            assert_eq!(step(terminal, event), None);
        }
    }
}

#[test]
fn no_reading_without_an_outstanding_request() {
    // MapSuccess is only allowed while a map request is outstanding; in
    // every other phase the signal is rejected, so MapReady cannot be
    // reached by skipping MapRequested.
    for phase in [
        DispatchPhase::Idle,
        DispatchPhase::Submitted,
        DispatchPhase::MapReady,
        DispatchPhase::Copied,
        DispatchPhase::Unmapped,
        DispatchPhase::MapFailed,
    ] {
        assert_eq!(step(phase, DispatchEvent::MapSuccess), None);
    }
    assert_eq!(
        step(DispatchPhase::MapRequested, DispatchEvent::MapSuccess),
        Some(DispatchPhase::MapReady)
    );
}

#[test]
fn copy_only_while_mapped() {
    assert_eq!(step(DispatchPhase::Submitted, DispatchEvent::CopyOut), None);
    assert_eq!(step(DispatchPhase::MapRequested, DispatchEvent::CopyOut), None);
    assert_eq!(
        step(DispatchPhase::MapReady, DispatchEvent::CopyOut),
        Some(DispatchPhase::Copied)
    );
    // Unmap comes only after the copy: the view must be consumed first.
    assert_eq!(step(DispatchPhase::MapReady, DispatchEvent::Unmap), None);
    assert_eq!(
        step(DispatchPhase::Copied, DispatchEvent::Unmap),
        Some(DispatchPhase::Unmapped)
    );
}
