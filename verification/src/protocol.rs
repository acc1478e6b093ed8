use vstd::prelude::*;

verus! {

/// The phases of one dispatch-and-readback pass, from building the command
/// sequence to releasing the mapping. `Unmapped` is the only successful
/// terminal phase; `MapFailed` is the failing one.
#[derive(Clone, Copy, Debug, PartialEq, Eq, Structural)]
pub enum DispatchPhase {
    /// Resources exist, nothing submitted yet.
    Idle,
    /// The command sequence (bind, dispatch, copy to staging) was submitted
    /// to the queue as one atomic unit.
    Submitted,
    /// A map-for-read request on the staging resource is outstanding.
    MapRequested,
    /// The map completed: the staging bytes are host-visible.
    MapReady,
    /// The mapped bytes were copied out into an owned byte sequence.
    Copied,
    /// The mapping was released. Terminal success.
    Unmapped,
    /// The map request reported failure (e.g. device lost). Terminal failure.
    MapFailed,
}

/// The events that drive one dispatch-and-readback pass.
#[derive(Clone, Copy, Debug, PartialEq, Eq, Structural)]
pub enum DispatchEvent {
    /// Submit the recorded command sequence to the queue.
    Submit,
    /// Ask the device to map the staging resource for reading.
    RequestMap,
    /// The out-of-band completion signal reported a successful map.
    MapSuccess,
    /// The out-of-band completion signal reported a failed map.
    MapFailure,
    /// Copy the mapped bytes out into owned memory.
    CopyOut,
    /// Release the mapping.
    Unmap,
}

/// The transition relation of the handshake. `None` means the event is not
/// allowed in the phase: the driver loop must never take it.
pub open spec fn spec_step(p: DispatchPhase, e: DispatchEvent) -> Option<DispatchPhase> {
    match (p, e) {
        (DispatchPhase::Idle, DispatchEvent::Submit) => Some(DispatchPhase::Submitted),
        (DispatchPhase::Submitted, DispatchEvent::RequestMap) => Some(DispatchPhase::MapRequested),
        (DispatchPhase::MapRequested, DispatchEvent::MapSuccess) => Some(DispatchPhase::MapReady),
        (DispatchPhase::MapRequested, DispatchEvent::MapFailure) => Some(DispatchPhase::MapFailed),
        (DispatchPhase::MapReady, DispatchEvent::CopyOut) => Some(DispatchPhase::Copied),
        (DispatchPhase::Copied, DispatchEvent::Unmap) => Some(DispatchPhase::Unmapped),
        _ => None,
    }
}

/// Host code may look at the mapped bytes only in this phase: after the
/// map-success signal and before the copy that precedes the unmap.
pub open spec fn read_allowed(p: DispatchPhase) -> bool {
    p == DispatchPhase::MapReady
}

/// The two phases from which no event leads anywhere.
pub open spec fn is_terminal(p: DispatchPhase) -> bool {
    p == DispatchPhase::Unmapped || p == DispatchPhase::MapFailed
}

/// One step of the handshake, exactly the transition relation.
pub fn step(p: DispatchPhase, e: DispatchEvent) -> (r: Option<DispatchPhase>)
    ensures
        r == spec_step(p, e),
{
    match (p, e) {
        (DispatchPhase::Idle, DispatchEvent::Submit) => Some(DispatchPhase::Submitted),
        (DispatchPhase::Submitted, DispatchEvent::RequestMap) => Some(DispatchPhase::MapRequested),
        (DispatchPhase::MapRequested, DispatchEvent::MapSuccess) => Some(DispatchPhase::MapReady),
        (DispatchPhase::MapRequested, DispatchEvent::MapFailure) => Some(DispatchPhase::MapFailed),
        (DispatchPhase::MapReady, DispatchEvent::CopyOut) => Some(DispatchPhase::Copied),
        (DispatchPhase::Copied, DispatchEvent::Unmap) => Some(DispatchPhase::Unmapped),
        _ => None,
    }
}

/// Running a whole event sequence from a phase: `None` as soon as any event
/// is not allowed.
pub open spec fn spec_run(p: DispatchPhase, events: Seq<DispatchEvent>) -> Option<DispatchPhase>
    decreases events.len(),
{
    if events.len() == 0 {
        Some(p)
    } else {
        match spec_step(p, events[0]) {
            Some(q) => spec_run(q, events.drop_first()),
            None => None,
        }
    }
}

/// Reading is only ever allowed after a map-success signal, which itself is
/// only allowed while a map request is outstanding: no transition reaches
/// `MapReady` except `MapSuccess` taken in `MapRequested`, and none reaches
/// `MapFailed` except `MapFailure` taken there.
pub proof fn lemma_no_skip_of_map_request(p: DispatchPhase, e: DispatchEvent)
    ensures
        spec_step(p, e) == Some(DispatchPhase::MapReady) ==> p == DispatchPhase::MapRequested
            && e == DispatchEvent::MapSuccess,
        spec_step(p, e) == Some(DispatchPhase::MapFailed) ==> p == DispatchPhase::MapRequested
            && e == DispatchEvent::MapFailure,
{
}

/// Terminal phases are terminal: no event is allowed in them, so a finished
/// pass, successful or failed, cannot be driven further and its staging
/// resource cannot be re-read or re-mapped without a fresh pass.
pub proof fn lemma_terminal_phases_are_final(p: DispatchPhase, e: DispatchEvent)
    requires
        is_terminal(p),
    ensures
        spec_step(p, e) is None,
{
}

/// Every phase but `Idle` has exactly one way in, and nothing leads back to
/// `Idle`: the transition relation pins, for each phase entered, the phase
/// it was entered from and the event that entered it.
pub proof fn lemma_unique_entry(p: DispatchPhase, e: DispatchEvent, q: DispatchPhase)
    requires
        spec_step(p, e) == Some(q),
    ensures
        q != DispatchPhase::Idle,
        q == DispatchPhase::Submitted ==> p == DispatchPhase::Idle && e == DispatchEvent::Submit,
        q == DispatchPhase::MapRequested ==> p == DispatchPhase::Submitted && e
            == DispatchEvent::RequestMap,
        q == DispatchPhase::MapReady ==> p == DispatchPhase::MapRequested && e
            == DispatchEvent::MapSuccess,
        q == DispatchPhase::MapFailed ==> p == DispatchPhase::MapRequested && e
            == DispatchEvent::MapFailure,
        q == DispatchPhase::Copied ==> p == DispatchPhase::MapReady && e == DispatchEvent::CopyOut,
        q == DispatchPhase::Unmapped ==> p == DispatchPhase::Copied && e == DispatchEvent::Unmap,
{
}

/// A run of at least one event decomposes into a run over all but the last
/// event followed by one allowed step on the last.
pub proof fn lemma_run_last_step(p: DispatchPhase, events: Seq<DispatchEvent>, q: DispatchPhase)
    requires
        events.len() > 0,
        spec_run(p, events) == Some(q),
    ensures
        exists|m: DispatchPhase|
            spec_run(p, events.drop_last()) == Some(m)
            && spec_step(m, events.last()) == Some(q),
    decreases events.len(),
{
    let first = spec_step(p, events[0]);
    if events.len() == 1 {
        assert(events.drop_last() =~= Seq::<DispatchEvent>::empty());
        assert(spec_run(p, events.drop_last()) == Some(p));
        assert(first == Some(q));
        assert(spec_run(p, events.drop_last()) == Some(p)
            && spec_step(p, events.last()) == Some(q));
    } else {
        let p1 = first.unwrap();
        lemma_run_last_step(p1, events.drop_first(), q);
        let m = choose|m: DispatchPhase|
            spec_run(p1, events.drop_first().drop_last()) == Some(m)
            && spec_step(m, events.drop_first().last()) == Some(q);
        assert(events.drop_first().drop_last() =~= events.drop_last().drop_first());
        assert(events.drop_first().last() == events.last());
        assert(spec_run(p, events.drop_last()) == Some(m));
        assert(spec_run(p, events.drop_last()) == Some(m)
            && spec_step(m, events.last()) == Some(q));
    }
}

/// Every run from `Idle` that ends with the bytes readable took a map-success
/// signal as its last event, out of an outstanding map request: the protocol
/// cannot reach readable bytes without the request/signal handshake.
pub proof fn lemma_read_needs_handshake(events: Seq<DispatchEvent>, q: DispatchPhase)
    requires
        spec_run(DispatchPhase::Idle, events) == Some(q),
        read_allowed(q),
    ensures
        events.len() > 0,
        events.last() == DispatchEvent::MapSuccess,
        spec_run(DispatchPhase::Idle, events.drop_last()) == Some(DispatchPhase::MapRequested),
{
    if events.len() == 0 {
        assert(q == DispatchPhase::Idle);
    }
    lemma_run_last_step(DispatchPhase::Idle, events, q);
    let m = choose|m: DispatchPhase|
        spec_run(DispatchPhase::Idle, events.drop_last()) == Some(m)
        && spec_step(m, events.last()) == Some(q);
    lemma_no_skip_of_map_request(m, events.last());
}

/// A run from `Idle` back to `Idle` is empty: no transition re-enters the
/// starting phase, so a pass cannot be restarted within one run.
pub proof fn lemma_idle_is_never_reentered(events: Seq<DispatchEvent>)
    requires
        spec_run(DispatchPhase::Idle, events) == Some(DispatchPhase::Idle),
    ensures
        events.len() == 0,
{
    if events.len() > 0 {
        lemma_run_last_step(DispatchPhase::Idle, events, DispatchPhase::Idle);
        let m = choose|m: DispatchPhase|
            spec_run(DispatchPhase::Idle, events.drop_last()) == Some(m)
            && spec_step(m, events.last()) == Some(DispatchPhase::Idle);
        lemma_unique_entry(m, events.last(), DispatchPhase::Idle);
    }
}

/// Runs one step backwards: a run from `Idle` that ends in a phase with a
/// unique entry took that entry last, out of the phase it names.
proof fn lemma_step_back(events: Seq<DispatchEvent>, q: DispatchPhase)
    requires
        spec_run(DispatchPhase::Idle, events) == Some(q),
        q != DispatchPhase::Idle,
    ensures
        events.len() > 0,
        exists|m: DispatchPhase|
            spec_run(DispatchPhase::Idle, events.drop_last()) == Some(m)
            && spec_step(m, events.last()) == Some(q),
{
    if events.len() == 0 {
        assert(q == DispatchPhase::Idle);
    }
    lemma_run_last_step(DispatchPhase::Idle, events, q);
}

/// There is exactly one way to finish a pass successfully: the five-event
/// handshake in its fixed order. Any run from `Idle` that ends in
/// `Unmapped` is submit, map request, map success, copy, unmap — nothing
/// reordered, nothing skipped, nothing repeated.
pub proof fn lemma_unique_success_path(events: Seq<DispatchEvent>)
    requires
        spec_run(DispatchPhase::Idle, events) == Some(DispatchPhase::Unmapped),
    ensures
        events =~= seq![
            DispatchEvent::Submit,
            DispatchEvent::RequestMap,
            DispatchEvent::MapSuccess,
            DispatchEvent::CopyOut,
            DispatchEvent::Unmap,
        ],
{
    let e4 = events.drop_last();
    lemma_step_back(events, DispatchPhase::Unmapped);
    let m4 = choose|m: DispatchPhase|
        spec_run(DispatchPhase::Idle, e4) == Some(m) && spec_step(m, events.last()) == Some(
            DispatchPhase::Unmapped,
        );
    lemma_unique_entry(m4, events.last(), DispatchPhase::Unmapped);

    let e3 = e4.drop_last();
    lemma_step_back(e4, DispatchPhase::Copied);
    let m3 = choose|m: DispatchPhase|
        spec_run(DispatchPhase::Idle, e3) == Some(m) && spec_step(m, e4.last()) == Some(
            DispatchPhase::Copied,
        );
    lemma_unique_entry(m3, e4.last(), DispatchPhase::Copied);

    let e2 = e3.drop_last();
    lemma_step_back(e3, DispatchPhase::MapReady);
    let m2 = choose|m: DispatchPhase|
        spec_run(DispatchPhase::Idle, e2) == Some(m) && spec_step(m, e3.last()) == Some(
            DispatchPhase::MapReady,
        );
    lemma_unique_entry(m2, e3.last(), DispatchPhase::MapReady);

    let e1 = e2.drop_last();
    lemma_step_back(e2, DispatchPhase::MapRequested);
    let m1 = choose|m: DispatchPhase|
        spec_run(DispatchPhase::Idle, e1) == Some(m) && spec_step(m, e2.last()) == Some(
            DispatchPhase::MapRequested,
        );
    lemma_unique_entry(m1, e2.last(), DispatchPhase::MapRequested);

    let e0 = e1.drop_last();
    lemma_step_back(e1, DispatchPhase::Submitted);
    let m0 = choose|m: DispatchPhase|
        spec_run(DispatchPhase::Idle, e0) == Some(m) && spec_step(m, e1.last()) == Some(
            DispatchPhase::Submitted,
        );
    lemma_unique_entry(m0, e1.last(), DispatchPhase::Submitted);

    lemma_idle_is_never_reentered(e0);
    assert(events.len() == 5);
    assert(events[4] == DispatchEvent::Unmap);
    assert(events[3] == e4.last());
    assert(events[2] == e3.last());
    assert(events[1] == e2.last());
    assert(events[0] == e1.last());
}

/// There is exactly one way to fail a pass: submit, map request, then a
/// map-failure signal. Any run from `Idle` that ends in `MapFailed` is
/// those three events in that order.
pub proof fn lemma_unique_failure_path(events: Seq<DispatchEvent>)
    requires
        spec_run(DispatchPhase::Idle, events) == Some(DispatchPhase::MapFailed),
    ensures
        events =~= seq![
            DispatchEvent::Submit,
            DispatchEvent::RequestMap,
            DispatchEvent::MapFailure,
        ],
{
    let e2 = events.drop_last();
    lemma_step_back(events, DispatchPhase::MapFailed);
    let m2 = choose|m: DispatchPhase|
        spec_run(DispatchPhase::Idle, e2) == Some(m) && spec_step(m, events.last()) == Some(
            DispatchPhase::MapFailed,
        );
    lemma_unique_entry(m2, events.last(), DispatchPhase::MapFailed);

    let e1 = e2.drop_last();
    lemma_step_back(e2, DispatchPhase::MapRequested);
    let m1 = choose|m: DispatchPhase|
        spec_run(DispatchPhase::Idle, e1) == Some(m) && spec_step(m, e2.last()) == Some(
            DispatchPhase::MapRequested,
        );
    lemma_unique_entry(m1, e2.last(), DispatchPhase::MapRequested);

    let e0 = e1.drop_last();
    lemma_step_back(e1, DispatchPhase::Submitted);
    let m0 = choose|m: DispatchPhase|
        spec_run(DispatchPhase::Idle, e0) == Some(m) && spec_step(m, e1.last()) == Some(
            DispatchPhase::Submitted,
        );
    lemma_unique_entry(m0, e1.last(), DispatchPhase::Submitted);

    lemma_idle_is_never_reentered(e0);
    assert(events.len() == 3);
    assert(events[2] == DispatchEvent::MapFailure);
    assert(events[1] == e2.last());
    assert(events[0] == e1.last());
}

} // verus!
