//! What holds of whole runs of a scan: from its start, through the outcome
//! of each probe, to its end.

use crate::error::ScanError;
use crate::port_scan::{
    advance_of, after_last_port, pending, start_of, PortScanView, ScanAction, ScanEvent, ScanPhase,
};
use vstd::prelude::*;

verus! {

/// The event that reports the outcome of a probe.
pub open spec fn outcome_event(open: bool) -> ScanEvent {
    if open {
        ScanEvent::Connected
    } else {
        ScanEvent::Refused
    }
}

/// The state that the scan `s` is in after the outcomes `opens` have been
/// reported to it, one after the other.
pub open spec fn after_outcomes(s: PortScanView, opens: Seq<bool>) -> PortScanView
    decreases opens.len(),
{
    if opens.len() == 0 {
        s
    } else {
        advance_of(after_outcomes(s, opens.drop_last()), outcome_event(opens.last())).0
    }
}

/// The ports that were open among `first`, `first + 1`, ..., where
/// `opens[i]` tells whether `first + i` was: in ascending order.
pub open spec fn open_ports(first: u16, opens: Seq<bool>) -> Seq<u16>
    decreases opens.len(),
{
    if opens.len() == 0 {
        Seq::empty()
    } else {
        let before = open_ports(first, opens.drop_last());
        if opens.last() {
            before.push((first + opens.len() - 1) as u16)
        } else {
            before
        }
    }
}

/// A scan that was started and has been told the outcomes of its first
/// probes holds exactly the open ones among the ports probed, has the next
/// port under probe, or is completed when none is left, and has kept its
/// configuration.
pub proof fn lemma_scan_progress(s: PortScanView, opens: Seq<bool>)
    requires
        s.range.wf(),
        start_of(s).1 is Ok,
        opens.len() <= s.range.count(),
    ensures
        after_outcomes(start_of(s).0, opens) == (PortScanView {
            result: open_ports(s.range.first(), opens),
            phase: if opens.len() < s.range.count() {
                ScanPhase::Probing((s.range.first() + opens.len()) as u16)
            } else {
                ScanPhase::Completed
            },
            ..s
        }),
    decreases opens.len(),
{
    if opens.len() > 0 {
        lemma_scan_progress(s, opens.drop_last());
    }
}

/// A scan that was started and has been told the outcome of the probe of
/// each of its ports is completed, holds exactly the open ones among its
/// ports in ascending order, whatever it held before, and has the result
/// written next if and only if an output path is set.
pub proof fn lemma_complete_run(s: PortScanView, opens: Seq<bool>)
    requires
        s.range.wf(),
        start_of(s).1 is Ok,
        opens.len() == s.range.count(),
    ensures
        after_outcomes(start_of(s).0, opens) == (PortScanView {
            result: open_ports(s.range.first(), opens),
            phase: ScanPhase::Completed,
            ..s
        }),
        pending(after_outcomes(start_of(s).0, opens)) == Ok::<ScanAction, ScanError>(
            after_last_port(s),
        ),
{
    lemma_scan_progress(s, opens);
}

/// A port is among the open ports exactly when it was probed and its
/// probe found it open.
pub proof fn lemma_open_ports_contains(first: u16, opens: Seq<bool>, port: u16)
    requires
        first + opens.len() <= 65536,
    ensures
        open_ports(first, opens).contains(port) <==> (first <= port < first + opens.len()
            && opens[port - first]),
    decreases opens.len(),
{
    if opens.len() > 0 {
        let before = open_ports(first, opens.drop_last());
        lemma_open_ports_contains(first, opens.drop_last(), port);
        if opens.last() {
            let top = (first + opens.len() - 1) as u16;
            assert(open_ports(first, opens) == before.push(top));
            assert(before.push(top).last() == top);
            if before.push(top).contains(port) {
                let i = choose|i: int| 0 <= i < before.push(top).len() && before.push(top)[i] == port;
                if i < before.len() {
                    assert(before[i] == port);
                }
            }
            if before.contains(port) {
                let i = choose|i: int| 0 <= i < before.len() && before[i] == port;
                assert(before.push(top)[i] == port);
            }
        }
    }
}

/// The open ports lie in the probed interval and ascend strictly: none
/// occurs twice.
pub proof fn lemma_open_ports_ascend(first: u16, opens: Seq<bool>)
    requires
        first + opens.len() <= 65536,
    ensures
        open_ports(first, opens).len() <= opens.len(),
        forall|i: int|
            0 <= i < open_ports(first, opens).len() ==> first <= #[trigger] open_ports(
                first,
                opens,
            )[i] < first + opens.len(),
        forall|i: int, j: int|
            0 <= i < j < open_ports(first, opens).len() ==> open_ports(first, opens)[i]
                < open_ports(first, opens)[j],
        open_ports(first, opens).no_duplicates(),
    decreases opens.len(),
{
    if opens.len() > 0 {
        lemma_open_ports_ascend(first, opens.drop_last());
    }
}

/// Where no probe finds an open port, no port is found open.
pub proof fn lemma_nothing_open(first: u16, opens: Seq<bool>)
    requires
        forall|i: int| 0 <= i < opens.len() ==> !opens[i],
    ensures
        open_ports(first, opens) == Seq::<u16>::empty(),
    decreases opens.len(),
{
    if opens.len() > 0 {
        lemma_nothing_open(first, opens.drop_last());
    }
}

/// Where every probe finds an open port, every port probed is found open.
pub proof fn lemma_everything_open(first: u16, opens: Seq<bool>)
    requires
        first + opens.len() <= 65536,
        forall|i: int| 0 <= i < opens.len() ==> opens[i],
    ensures
        open_ports(first, opens) == Seq::new(opens.len(), |i: int| (first + i) as u16),
    decreases opens.len(),
{
    if opens.len() > 0 {
        lemma_everything_open(first, opens.drop_last());
        assert(open_ports(first, opens) =~= Seq::new(opens.len(), |i: int| (first + i) as u16));
    } else {
        assert(open_ports(first, opens) =~= Seq::new(opens.len(), |i: int| (first + i) as u16));
    }
}

/// Starting a scan anew forgets what an earlier run had found: no port of
/// an earlier run is counted a second time.
pub proof fn lemma_start_forgets(s: PortScanView)
    requires
        start_of(s).1 is Ok,
    ensures
        start_of(s).0.result == Seq::<u16>::empty(),
        start_of(s).0 == start_of(start_of(s).0).0,
{
}

/// The result is written at most once: once it is written, the scan asks
/// for nothing more, whatever is reported to it.
pub proof fn lemma_persisted_is_final(s: PortScanView, e: ScanEvent)
    requires
        s.phase == ScanPhase::Persisted,
    ensures
        advance_of(s, e) == (s, Ok::<ScanAction, ScanError>(ScanAction::Finish)),
{
}

/// The result is written only after the last probe, and only to a path
/// that was set.
pub proof fn lemma_persist_only_when_completed(s: PortScanView)
    ensures
        pending(s) == Ok::<ScanAction, ScanError>(ScanAction::Persist) <==> (s.phase
            == ScanPhase::Completed && s.output_path is Some),
{
}

/// Nothing that is reported to a scan changes its configuration.
pub proof fn lemma_advance_keeps_configuration(s: PortScanView, e: ScanEvent)
    ensures
        advance_of(s, e).0.scan_type == s.scan_type,
        advance_of(s, e).0.range == s.range,
        advance_of(s, e).0.target == s.target,
        advance_of(s, e).0.output_path == s.output_path,
{
}

/// A scan that has no output path never has its result written.
pub proof fn lemma_no_path_no_persist(s: PortScanView, e: ScanEvent)
    requires
        s.output_path is None,
    ensures
        advance_of(s, e).1 != Ok::<ScanAction, ScanError>(ScanAction::Persist),
        advance_of(s, e).0.phase != ScanPhase::Persisted || s.phase == ScanPhase::Persisted,
{
}

} // verus!
