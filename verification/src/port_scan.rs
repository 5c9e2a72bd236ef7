//! A scan: its configuration, the ports found open, and the decisions that
//! carry it from its configuration to its end.
//!
//! The scan performs no input or output. `start` and `advance` say what is
//! to be done next; a driver does it and reports what happened.

use crate::error::{IoFailure, ParseError, ScanError};
use crate::port_range::{port_range_of, str_to_port_range, PortRange};
use crate::scan_type::{scan_type_of, str_to_scan_type, ScanType};
pub use crate::target::str_to_ip_addr;
use crate::target::{target_of, ScanTarget};
use crate::utils::check_output_path;
use vstd::prelude::*;

verus! {

/// The name under which the written result holds the scan type. The four
/// names below are the fields of the written result, in this order.
pub const SCAN_TYPE_FIELD: &'static str = "Scan-Type";

/// The name under which the written result holds the ports scanned.
pub const SCAN_PORT_FIELD: &'static str = "Scan-Port";

/// The name under which the written result holds the target.
pub const SCAN_TARGET_FIELD: &'static str = "Scan-Target";

/// The name under which the written result holds the ports found open.
pub const SCAN_OPENED_PORTS_FIELD: &'static str = "Scan-Opened-Ports";

/// Where a scan stands.
#[derive(Debug, Clone, Copy, PartialEq, Eq, Structural)]
pub enum ScanPhase {
    /// Not started.
    Configured,
    /// Started; the outcome of the probe of this port is awaited.
    Probing(u16),
    /// Every port has been probed; the result has not been written.
    Completed,
    /// The result has been written to the output path.
    Persisted,
}

/// What the driver of a scan is to do next.
#[derive(Debug, Clone, Copy, PartialEq, Eq, Structural)]
pub enum ScanAction {
    /// Attempt a TCP connection to this port of the target, close it, and
    /// report `Connected` or `Refused`.
    Connect(u16),
    /// Encode the result, write it to the output path, and report how that
    /// went.
    Persist,
    /// Nothing is left to do.
    Finish,
}

/// What the driver of a scan reports.
#[derive(Debug, Clone, Copy, PartialEq, Eq, Structural)]
pub enum ScanEvent {
    /// The connection was established: the port is open.
    Connected,
    /// The connection was refused, timed out or found no route: the port
    /// is closed or filtered.
    Refused,
    /// The result has been written to the output path.
    Written,
    /// The result could not be encoded.
    NotEncoded,
    /// The output file could not be created.
    NotCreated,
    /// The output file could not be written.
    NotWritten,
}

/// A scan as contracts see it.
pub struct PortScanView {
    pub scan_type: ScanType,
    pub range: PortRange,
    pub target: ScanTarget,
    pub output_path: Option<Seq<char>>,
    pub result: Seq<u16>,
    pub phase: ScanPhase,
}

/// A range that is known to be well formed.
#[derive(Debug, Clone, Copy)]
struct CheckedRange {
    range: PortRange,
}

impl CheckedRange {
    #[verifier::type_invariant]
    spec fn well_formed(self) -> bool {
        self.range.wf()
    }
}

/// A scan: what to probe and how, where to write the result, the ports
/// found open so far, and how far the scan has come.
#[derive(Debug)]
pub struct PortScan {
    scan_type: ScanType,
    range: CheckedRange,
    target: ScanTarget,
    output_path: Option<String>,
    result: Vec<u16>,
    phase: ScanPhase,
}

/// The scan that `create_scan` makes: a connect scan of the well-known
/// ports of the unspecified address, that writes no file and has found
/// nothing.
pub open spec fn default_scan() -> PortScanView {
    PortScanView {
        scan_type: ScanType::Connect,
        range: PortRange::Range(1, 1024),
        target: ScanTarget::V4(0, 0, 0, 0),
        output_path: None,
        result: Seq::empty(),
        phase: ScanPhase::Configured,
    }
}

/// How a port is probed under a scan type: by a connection for a connect
/// scan; a SYN scan has no implementation.
pub open spec fn probe_of(scan_type: ScanType, port: u16) -> Result<ScanAction, ScanError> {
    match scan_type {
        ScanType::Syn => Err(ScanError::Unimplemented),
        ScanType::Connect => Ok(ScanAction::Connect(port)),
    }
}

/// What follows the probe of the last port: the result is written if an
/// output path is set, and the scan is over if none is.
pub open spec fn after_last_port(s: PortScanView) -> ScanAction {
    if s.output_path is Some {
        ScanAction::Persist
    } else {
        ScanAction::Finish
    }
}

/// What is to be done in the state `s` when nothing new has happened.
pub open spec fn pending(s: PortScanView) -> Result<ScanAction, ScanError> {
    match s.phase {
        ScanPhase::Configured => Ok(ScanAction::Finish),
        ScanPhase::Probing(port) => probe_of(s.scan_type, port),
        ScanPhase::Completed => Ok(after_last_port(s)),
        ScanPhase::Persisted => Ok(ScanAction::Finish),
    }
}

/// The state in which a started scan awaits its first outcome: nothing
/// found, the lowest port of the range under probe.
pub open spec fn started(s: PortScanView) -> PortScanView {
    PortScanView { result: Seq::empty(), phase: ScanPhase::Probing(s.range.first()), ..s }
}

/// What `start` does: a scan whose type is implemented forgets what it had
/// found and asks for the probe of the lowest port; any other scan is left
/// as it is.
pub open spec fn start_of(s: PortScanView) -> (PortScanView, Result<ScanAction, ScanError>) {
    match probe_of(s.scan_type, s.range.first()) {
        Ok(action) => (started(s), Ok(action)),
        Err(e) => (s, Err(e)),
    }
}

/// The state after the outcome of the probe of `port` is known: the port
/// joins the result if it is open; the next port comes under probe, or the
/// scan is completed if `port` is not below the highest of the range.
pub open spec fn probed(s: PortScanView, port: u16, open: bool) -> PortScanView {
    PortScanView {
        result: if open {
            s.result.push(port)
        } else {
            s.result
        },
        phase: if port < s.range.last() {
            ScanPhase::Probing((port + 1) as u16)
        } else {
            ScanPhase::Completed
        },
        ..s
    }
}

/// What `advance` does with the event `e` in the state `s`.
///
/// While a port is under probe, `Connected` and `Refused` are its
/// outcome. Once the scan is completed and an output path is set,
/// `Written` ends it and each of the three failures is reported as the
/// error it stands for. Any other event changes nothing and has the
/// pending action repeated.
pub open spec fn advance_of(s: PortScanView, e: ScanEvent) -> (
    PortScanView,
    Result<ScanAction, ScanError>,
) {
    match (s.phase, e) {
        (ScanPhase::Probing(port), ScanEvent::Connected) => (
            probed(s, port, true),
            pending(probed(s, port, true)),
        ),
        (ScanPhase::Probing(port), ScanEvent::Refused) => (
            probed(s, port, false),
            pending(probed(s, port, false)),
        ),
        (ScanPhase::Completed, ScanEvent::Written) => if s.output_path is Some {
            (PortScanView { phase: ScanPhase::Persisted, ..s }, Ok(ScanAction::Finish))
        } else {
            (s, pending(s))
        },
        (ScanPhase::Completed, ScanEvent::NotEncoded) => if s.output_path is Some {
            (s, Err(ScanError::SerializationError))
        } else {
            (s, pending(s))
        },
        (ScanPhase::Completed, ScanEvent::NotCreated) => if s.output_path is Some {
            (s, Err(ScanError::IoError(IoFailure::Create)))
        } else {
            (s, pending(s))
        },
        (ScanPhase::Completed, ScanEvent::NotWritten) => if s.output_path is Some {
            (s, Err(ScanError::IoError(IoFailure::Write)))
        } else {
            (s, pending(s))
        },
        _ => (s, pending(s)),
    }
}

impl View for PortScan {
    type V = PortScanView;

    closed spec fn view(&self) -> PortScanView {
        PortScanView {
            scan_type: self.scan_type,
            range: self.range.range,
            target: self.target,
            output_path: match self.output_path {
                Some(path) => Some(path@),
                None => None,
            },
            result: self.result@,
            phase: self.phase,
        }
    }
}

impl PortScan {
    /// A scan with the default configuration.
    pub fn create_scan() -> (scan: PortScan)
        ensures
            scan@ == default_scan(),
    {
        PortScan {
            scan_type: ScanType::Connect,
            range: CheckedRange { range: PortRange::Range(1, 1024) },
            target: ScanTarget::V4(0, 0, 0, 0),
            output_path: None,
            result: Vec::new(),
            phase: ScanPhase::Configured,
        }
    }

    /// Sets the ports to scan from their specification, or refuses it and
    /// leaves the scan as it is.
    pub fn set_port(&mut self, port_range_str: &str) -> (r: Result<(), ParseError>)
        ensures
            match port_range_of(port_range_str@) {
                Some(range) => r is Ok && final(self)@ == (PortScanView { range, ..old(self)@ }),
                None => r == Err::<(), ParseError>(ParseError::InvalidPortRange) && final(self)@
                    == old(self)@,
            },
    {
        match str_to_port_range(port_range_str) {
            Ok(range) => {
                self.range = CheckedRange { range };
                Ok(())
            },
            Err(e) => Err(e),
        }
    }

    /// Sets the target from its literal, or refuses it and leaves the scan
    /// as it is.
    pub fn set_target(&mut self, target: &str) -> (r: Result<(), ParseError>)
        ensures
            match target_of(target@) {
                Some(address) => r is Ok && final(self)@ == (PortScanView {
                    target: address,
                    ..old(self)@
                }),
                None => r == Err::<(), ParseError>(ParseError::InvalidTarget) && final(self)@
                    == old(self)@,
            },
    {
        match str_to_ip_addr(target) {
            Ok(address) => {
                self.target = address;
                Ok(())
            },
            Err(e) => Err(e),
        }
    }

    /// Sets the scan type from its name, or refuses it and leaves the scan
    /// as it is.
    pub fn set_scan_type(&mut self, scan_type_str: &str) -> (r: Result<(), ParseError>)
        ensures
            match scan_type_of(scan_type_str@) {
                Some(scan_type) => r is Ok && final(self)@ == (PortScanView {
                    scan_type,
                    ..old(self)@
                }),
                None => r == Err::<(), ParseError>(ParseError::InvalidScanType) && final(self)@
                    == old(self)@,
            },
    {
        match str_to_scan_type(scan_type_str) {
            Ok(scan_type) => {
                self.scan_type = scan_type;
                Ok(())
            },
            Err(e) => Err(e),
        }
    }

    /// Sets the scan type from its name, or refuses it and leaves the scan
    /// as it is. Another name for `set_scan_type`.
    pub fn set_protocol(&mut self, scan_type_str: &str) -> (r: Result<(), ParseError>)
        ensures
            match scan_type_of(scan_type_str@) {
                Some(scan_type) => r is Ok && final(self)@ == (PortScanView {
                    scan_type,
                    ..old(self)@
                }),
                None => r == Err::<(), ParseError>(ParseError::InvalidScanType) && final(self)@
                    == old(self)@,
            },
    {
        self.set_scan_type(scan_type_str)
    }

    /// Sets the path the result is written to when nothing exists there
    /// yet, which is for the caller to find out; refuses the path and
    /// leaves the scan as it is when something does.
    pub fn set_output_path(&mut self, output_path: &str, path_is_free: bool) -> (r: Result<
        (),
        ParseError,
    >)
        ensures
            path_is_free ==> r is Ok && final(self)@ == (PortScanView {
                output_path: Some(output_path@),
                ..old(self)@
            }),
            !path_is_free ==> r == Err::<(), ParseError>(ParseError::OutputExists) && final(self)@
                == old(self)@,
    {
        match check_output_path(output_path, path_is_free) {
            Ok(path) => {
                self.output_path = Some(path);
                Ok(())
            },
            Err(e) => Err(e),
        }
    }

    /// The configured scan type.
    pub fn scan_type(&self) -> (scan_type: ScanType)
        ensures
            scan_type == self@.scan_type,
    {
        self.scan_type
    }

    /// The configured ports. They are always a well-formed range.
    pub fn range(&self) -> (range: PortRange)
        ensures
            range == self@.range,
            range.wf(),
    {
        proof {
            use_type_invariant(&self.range);
        }
        self.range.range
    }

    /// The configured target.
    pub fn target(&self) -> (target: ScanTarget)
        ensures
            target == self@.target,
    {
        self.target
    }

    /// The path the result is written to, if one is set.
    pub fn output_path(&self) -> (path: &Option<String>)
        ensures
            match *path {
                Some(p) => self@.output_path == Some(p@),
                None => self@.output_path is None,
            },
    {
        &self.output_path
    }

    /// The ports found open so far, in the order in which they were found.
    pub fn result(&self) -> (ports: &Vec<u16>)
        ensures
            ports@ == self@.result,
    {
        &self.result
    }

    /// Where the scan stands.
    pub fn phase(&self) -> (phase: ScanPhase)
        ensures
            phase == self@.phase,
    {
        self.phase
    }

    /// What is to be done as things stand.
    pub fn pending_action(&self) -> (r: Result<ScanAction, ScanError>)
        ensures
            r == pending(self@),
    {
        match self.phase {
            ScanPhase::Configured => Ok(ScanAction::Finish),
            ScanPhase::Probing(port) => launch_scan_on_port(self, port),
            ScanPhase::Completed => {
                if self.output_path.is_some() {
                    Ok(ScanAction::Persist)
                } else {
                    Ok(ScanAction::Finish)
                }
            },
            ScanPhase::Persisted => Ok(ScanAction::Finish),
        }
    }

    /// Appends `port` to the ports found open.
    pub fn add_port_to_result(&mut self, port: u16)
        ensures
            final(self)@ == (PortScanView { result: old(self)@.result.push(port), ..old(self)@ }),
    {
        self.result.push(port);
    }

    /// Starts the scan and says what to do first.
    pub fn start(&mut self) -> (r: Result<ScanAction, ScanError>)
        ensures
            (final(self)@, r) == start_of(old(self)@),
    {
        let first = self.range.range.first_port();
        match launch_scan_on_port(self, first) {
            Ok(action) => {
                self.result = Vec::new();
                self.phase = ScanPhase::Probing(first);
                Ok(action)
            },
            Err(e) => Err(e),
        }
    }

    /// Takes in what the driver reports and says what to do next.
    pub fn advance(&mut self, event: ScanEvent) -> (r: Result<ScanAction, ScanError>)
        ensures
            (final(self)@, r) == advance_of(old(self)@, event),
    {
        match (self.phase, event) {
            (ScanPhase::Probing(port), ScanEvent::Connected) => {
                connect_scan_on_port(self, port, true);
                self.move_past(port);
                self.pending_action()
            },
            (ScanPhase::Probing(port), ScanEvent::Refused) => {
                connect_scan_on_port(self, port, false);
                self.move_past(port);
                self.pending_action()
            },
            (ScanPhase::Completed, ScanEvent::Written) => {
                if self.output_path.is_some() {
                    self.phase = ScanPhase::Persisted;
                    Ok(ScanAction::Finish)
                } else {
                    self.pending_action()
                }
            },
            (ScanPhase::Completed, ScanEvent::NotEncoded) => {
                if self.output_path.is_some() {
                    Err(ScanError::SerializationError)
                } else {
                    self.pending_action()
                }
            },
            (ScanPhase::Completed, ScanEvent::NotCreated) => {
                if self.output_path.is_some() {
                    Err(ScanError::IoError(IoFailure::Create))
                } else {
                    self.pending_action()
                }
            },
            (ScanPhase::Completed, ScanEvent::NotWritten) => {
                if self.output_path.is_some() {
                    Err(ScanError::IoError(IoFailure::Write))
                } else {
                    self.pending_action()
                }
            },
            _ => self.pending_action(),
        }
    }

    /// Puts the port after `port` under probe, or completes the scan when
    /// `port` is not below the highest port of the range.
    fn move_past(&mut self, port: u16)
        ensures
            final(self)@ == (PortScanView {
                phase: if port < old(self)@.range.last() {
                    ScanPhase::Probing((port + 1) as u16)
                } else {
                    ScanPhase::Completed
                },
                ..old(self)@
            }),
    {
        if port < self.range.range.last_port() {
            self.phase = ScanPhase::Probing(port + 1);
        } else {
            self.phase = ScanPhase::Completed;
        }
    }
}

/// Chooses the probe of `port` that the type of the scan calls for.
pub fn launch_scan_on_port(scan: &PortScan, port: u16) -> (r: Result<ScanAction, ScanError>)
    ensures
        r == probe_of(scan@.scan_type, port),
{
    match scan.scan_type {
        ScanType::Syn => syn_scan_on_port(scan, port),
        ScanType::Connect => Ok(ScanAction::Connect(port)),
    }
}

/// The SYN probe of a port: it has no implementation, and says so.
pub fn syn_scan_on_port(scan: &PortScan, port: u16) -> (r: Result<ScanAction, ScanError>)
    ensures
        r == Err::<ScanAction, ScanError>(ScanError::Unimplemented),
{
    Err(ScanError::Unimplemented)
}

/// Takes in the outcome of the connection attempt to `port`: the port joins
/// the ports found open if the connection was established, and nothing
/// changes if it was not.
pub fn connect_scan_on_port(scan: &mut PortScan, port: u16, connected: bool)
    ensures
        final(scan)@ == (PortScanView {
            result: if connected {
                old(scan)@.result.push(port)
            } else {
                old(scan)@.result
            },
            ..old(scan)@
        }),
{
    if connected {
        scan.add_port_to_result(port);
    }
}

} // verus!
