use rust_scanner::error::{IoFailure, ParseError, ScanError};
use rust_scanner::port_range::PortRange;
use rust_scanner::port_scan::{
    connect_scan_on_port, launch_scan_on_port, syn_scan_on_port, PortScan, ScanAction, ScanEvent,
    ScanPhase,
};
use rust_scanner::scan_type::ScanType;
use rust_scanner::target::ScanTarget;

/// Runs `scan` to the end of its probes, with exactly the ports of `open`
/// accepting a connection. Gives back the ports probed, in order, and the
/// action that followed the last probe.
fn drive(scan: &mut PortScan, open: &[u16]) -> (Vec<u16>, ScanAction) {
    let mut probed = Vec::new();
    let mut action = scan.start().unwrap();
    loop {
        match action {
            ScanAction::Connect(port) => {
                probed.push(port);
                let event = if open.contains(&port) {
                    ScanEvent::Connected
                } else {
                    ScanEvent::Refused
                };
                action = scan.advance(event).unwrap();
            }
            other => return (probed, other),
        }
    }
}

#[test]
fn test_set_port() {
    let mut scan = PortScan::create_scan();
    scan.set_port("1-1024").unwrap();
    assert_eq!(scan.range(), PortRange::Range(1, 1024));
    scan.set_port("1024").unwrap();
    assert_eq!(scan.range(), PortRange::Single(1024));
}

#[test]
fn test_set_target() {
    let mut scan = PortScan::create_scan();
    scan.set_target("127.0.0.1").unwrap();
    assert_eq!(scan.target(), ScanTarget::V4(127, 0, 0, 1));
}

#[test]
fn test_set_scan_type() {
    let mut scan = PortScan::create_scan();
    scan.set_scan_type("syn").unwrap();
    assert_eq!(scan.scan_type(), ScanType::Syn);
    scan.set_scan_type("connect").unwrap();
    assert_eq!(scan.scan_type(), ScanType::Connect);
}

#[test]
fn test_set_output_path() {
    let mut scan = PortScan::create_scan();
    scan.set_output_path("output.json", true).unwrap();
    match scan.output_path() {
        Some(path) => assert_eq!(path, "output.json"),
        None => assert!(false),
    }
}

#[test]
fn test_add_port_to_result() {
    let mut scan = PortScan::create_scan();
    scan.add_port_to_result(80);
    assert_eq!(*scan.result(), vec![80]);
}

#[test]
fn new_scan_has_the_defaults() {
    let scan = PortScan::create_scan();
    assert_eq!(scan.scan_type(), ScanType::Connect);
    assert_eq!(scan.range(), PortRange::Range(1, 1024));
    assert_eq!(scan.target(), ScanTarget::V4(0, 0, 0, 0));
    assert_eq!(*scan.output_path(), None);
    assert!(scan.result().is_empty());
    assert_eq!(scan.phase(), ScanPhase::Configured);
    assert_eq!(scan.pending_action(), Ok(ScanAction::Finish));
}

#[test]
fn refused_settings_leave_the_scan_as_it_was() {
    let mut scan = PortScan::create_scan();
    scan.set_port("80").unwrap();
    scan.set_target("10.0.0.1").unwrap();
    assert_eq!(scan.set_port("80-79"), Err(ParseError::InvalidPortRange));
    assert_eq!(scan.set_port("1-1024-1024"), Err(ParseError::InvalidPortRange));
    assert_eq!(scan.set_scan_type("udp"), Err(ParseError::InvalidScanType));
    assert_eq!(scan.set_protocol("udp"), Err(ParseError::InvalidScanType));
    assert_eq!(scan.set_target("256.256.256.256"), Err(ParseError::InvalidTarget));
    assert_eq!(scan.set_target("not-an-ip"), Err(ParseError::InvalidTarget));
    assert_eq!(scan.set_output_path("taken.json", false), Err(ParseError::OutputExists));
    assert_eq!(scan.scan_type(), ScanType::Connect);
    assert_eq!(scan.range(), PortRange::Single(80));
    assert_eq!(scan.target(), ScanTarget::V4(10, 0, 0, 1));
    assert_eq!(*scan.output_path(), None);
    assert_eq!(scan.phase(), ScanPhase::Configured);
}

#[test]
fn set_protocol_sets_the_scan_type() {
    let mut scan = PortScan::create_scan();
    scan.set_protocol("SYN").unwrap();
    assert_eq!(scan.scan_type(), ScanType::Syn);
    scan.set_protocol("Connect").unwrap();
    assert_eq!(scan.scan_type(), ScanType::Connect);
}

#[test]
fn set_target_takes_ipv6_literals() {
    let mut scan = PortScan::create_scan();
    scan.set_target("::1").unwrap();
    assert_eq!(scan.target(), ScanTarget::V6(0, 0, 0, 0, 0, 0, 0, 1));
}

#[test]
fn taken_output_path_is_refused_before_any_probe() {
    let mut scan = PortScan::create_scan();
    assert_eq!(scan.set_output_path("already-there.json", false), Err(ParseError::OutputExists));
    assert_eq!(*scan.output_path(), None);
    assert_eq!(scan.phase(), ScanPhase::Configured);
    assert!(scan.result().is_empty());
}

#[test]
fn open_port_is_found() {
    let mut scan = PortScan::create_scan();
    scan.set_target("127.0.0.1").unwrap();
    scan.set_port("8080").unwrap();
    scan.set_scan_type("connect").unwrap();
    let (probed, last) = drive(&mut scan, &[8080]);
    assert_eq!(probed, vec![8080]);
    assert_eq!(last, ScanAction::Finish);
    assert_eq!(*scan.result(), vec![8080]);
    assert_eq!(scan.phase(), ScanPhase::Completed);
}

#[test]
fn closed_ports_leave_the_result_empty() {
    let mut scan = PortScan::create_scan();
    scan.set_target("127.0.0.1").unwrap();
    scan.set_port("9998-9999").unwrap();
    let (probed, last) = drive(&mut scan, &[]);
    assert_eq!(probed, vec![9998, 9999]);
    assert_eq!(last, ScanAction::Finish);
    assert_eq!(*scan.result(), Vec::<u16>::new());
    assert_eq!(scan.scan_type(), ScanType::Connect);
    assert_eq!(scan.range(), PortRange::Range(9998, 9999));
    assert_eq!(scan.target(), ScanTarget::V4(127, 0, 0, 1));
}

#[test]
fn ports_are_probed_in_ascending_order_and_open_ones_kept() {
    let mut scan = PortScan::create_scan();
    scan.set_port("20-30").unwrap();
    let (probed, _) = drive(&mut scan, &[30, 22, 25, 80]);
    assert_eq!(probed, vec![20, 21, 22, 23, 24, 25, 26, 27, 28, 29, 30]);
    assert_eq!(*scan.result(), vec![22, 25, 30]);
}

#[test]
fn default_range_is_probed_whole() {
    let mut scan = PortScan::create_scan();
    let (probed, _) = drive(&mut scan, &[1, 443, 1024]);
    assert_eq!(probed.len(), 1024);
    assert_eq!(probed[0], 1);
    assert_eq!(probed[1023], 1024);
    assert_eq!(*scan.result(), vec![1, 443, 1024]);
}

#[test]
fn highest_port_ends_the_scan() {
    let mut scan = PortScan::create_scan();
    scan.set_port("65534-65535").unwrap();
    let (probed, last) = drive(&mut scan, &[65535]);
    assert_eq!(probed, vec![65534, 65535]);
    assert_eq!(last, ScanAction::Finish);
    assert_eq!(*scan.result(), vec![65535]);
}

#[test]
fn second_start_does_not_count_a_port_twice() {
    let mut scan = PortScan::create_scan();
    scan.set_port("80-82").unwrap();
    drive(&mut scan, &[80, 82]);
    assert_eq!(*scan.result(), vec![80, 82]);
    drive(&mut scan, &[80, 82]);
    assert_eq!(*scan.result(), vec![80, 82]);
    drive(&mut scan, &[81]);
    assert_eq!(*scan.result(), vec![81]);
}

#[test]
fn start_forgets_ports_added_by_hand() {
    let mut scan = PortScan::create_scan();
    scan.set_port("80").unwrap();
    scan.add_port_to_result(80);
    scan.add_port_to_result(80);
    assert_eq!(*scan.result(), vec![80, 80]);
    assert_eq!(scan.start(), Ok(ScanAction::Connect(80)));
    assert!(scan.result().is_empty());
    assert_eq!(scan.phase(), ScanPhase::Probing(80));
}

#[test]
fn syn_scan_is_not_implemented() {
    let mut scan = PortScan::create_scan();
    scan.set_scan_type("syn").unwrap();
    scan.set_output_path("out.json", true).unwrap();
    scan.add_port_to_result(7);
    assert_eq!(scan.start(), Err(ScanError::Unimplemented));
    assert_eq!(scan.phase(), ScanPhase::Configured);
    assert_eq!(*scan.result(), vec![7]);
    assert_eq!(scan.pending_action(), Ok(ScanAction::Finish));
    assert_eq!(launch_scan_on_port(&scan, 80), Err(ScanError::Unimplemented));
    assert_eq!(syn_scan_on_port(&scan, 80), Err(ScanError::Unimplemented));
}

#[test]
fn connect_scan_asks_for_a_connection() {
    let scan = PortScan::create_scan();
    assert_eq!(launch_scan_on_port(&scan, 80), Ok(ScanAction::Connect(80)));
    assert_eq!(launch_scan_on_port(&scan, 0), Ok(ScanAction::Connect(0)));
}

#[test]
fn connection_outcome_decides_whether_the_port_is_kept() {
    let mut scan = PortScan::create_scan();
    connect_scan_on_port(&mut scan, 22, true);
    connect_scan_on_port(&mut scan, 23, false);
    connect_scan_on_port(&mut scan, 25, true);
    assert_eq!(*scan.result(), vec![22, 25]);
    assert_eq!(scan.phase(), ScanPhase::Configured);
}

#[test]
fn result_is_written_once_after_the_last_probe() {
    let mut scan = PortScan::create_scan();
    scan.set_port("1-3").unwrap();
    scan.set_output_path("out.json", true).unwrap();
    assert_eq!(scan.start(), Ok(ScanAction::Connect(1)));
    assert_eq!(scan.advance(ScanEvent::Refused), Ok(ScanAction::Connect(2)));
    assert_eq!(scan.advance(ScanEvent::Connected), Ok(ScanAction::Connect(3)));
    assert_eq!(scan.advance(ScanEvent::Refused), Ok(ScanAction::Persist));
    assert_eq!(scan.phase(), ScanPhase::Completed);
    assert_eq!(scan.advance(ScanEvent::Written), Ok(ScanAction::Finish));
    assert_eq!(scan.phase(), ScanPhase::Persisted);
    assert_eq!(scan.advance(ScanEvent::Written), Ok(ScanAction::Finish));
    assert_eq!(scan.advance(ScanEvent::Connected), Ok(ScanAction::Finish));
    assert_eq!(scan.phase(), ScanPhase::Persisted);
    assert_eq!(*scan.result(), vec![2]);
}

#[test]
fn no_output_path_means_nothing_is_written() {
    let mut scan = PortScan::create_scan();
    scan.set_port("7").unwrap();
    assert_eq!(scan.start(), Ok(ScanAction::Connect(7)));
    assert_eq!(scan.advance(ScanEvent::Connected), Ok(ScanAction::Finish));
    assert_eq!(scan.advance(ScanEvent::Written), Ok(ScanAction::Finish));
    assert_eq!(scan.advance(ScanEvent::NotCreated), Ok(ScanAction::Finish));
    assert_eq!(scan.phase(), ScanPhase::Completed);
}

#[test]
fn failures_to_write_are_told_apart_and_keep_the_result() {
    let mut scan = PortScan::create_scan();
    scan.set_port("7").unwrap();
    scan.set_output_path("out.json", true).unwrap();
    scan.start().unwrap();
    assert_eq!(scan.advance(ScanEvent::Connected), Ok(ScanAction::Persist));
    assert_eq!(scan.advance(ScanEvent::NotEncoded), Err(ScanError::SerializationError));
    assert_eq!(scan.advance(ScanEvent::NotCreated), Err(ScanError::IoError(IoFailure::Create)));
    assert_eq!(scan.advance(ScanEvent::NotWritten), Err(ScanError::IoError(IoFailure::Write)));
    assert_eq!(scan.phase(), ScanPhase::Completed);
    assert_eq!(*scan.result(), vec![7]);
    assert_eq!(scan.pending_action(), Ok(ScanAction::Persist));
    assert_eq!(scan.advance(ScanEvent::Written), Ok(ScanAction::Finish));
    assert_eq!(scan.phase(), ScanPhase::Persisted);
}

#[test]
fn events_out_of_turn_change_nothing() {
    let mut scan = PortScan::create_scan();
    scan.set_port("5-6").unwrap();
    scan.set_output_path("out.json", true).unwrap();
    assert_eq!(scan.advance(ScanEvent::Connected), Ok(ScanAction::Finish));
    assert_eq!(scan.advance(ScanEvent::Written), Ok(ScanAction::Finish));
    assert_eq!(scan.phase(), ScanPhase::Configured);
    assert!(scan.result().is_empty());
    scan.start().unwrap();
    assert_eq!(scan.advance(ScanEvent::Written), Ok(ScanAction::Connect(5)));
    assert_eq!(scan.advance(ScanEvent::NotWritten), Ok(ScanAction::Connect(5)));
    assert_eq!(scan.phase(), ScanPhase::Probing(5));
    assert_eq!(scan.advance(ScanEvent::Refused), Ok(ScanAction::Connect(6)));
    assert_eq!(scan.advance(ScanEvent::Refused), Ok(ScanAction::Persist));
    assert_eq!(scan.advance(ScanEvent::Connected), Ok(ScanAction::Persist));
    assert_eq!(scan.advance(ScanEvent::Refused), Ok(ScanAction::Persist));
    assert!(scan.result().is_empty());
}

#[test]
fn scan_type_changed_under_way_stops_the_probes() {
    let mut scan = PortScan::create_scan();
    scan.set_port("5-6").unwrap();
    assert_eq!(scan.start(), Ok(ScanAction::Connect(5)));
    scan.set_scan_type("syn").unwrap();
    assert_eq!(scan.advance(ScanEvent::Connected), Err(ScanError::Unimplemented));
    assert_eq!(scan.phase(), ScanPhase::Probing(6));
    assert_eq!(*scan.result(), vec![5]);
}

#[test]
fn existing_file_is_refused_as_output_path() {
    let name = "src/lib.rs";
    let free = !std::path::Path::new(name).exists();
    let mut scan = PortScan::create_scan();
    assert_eq!(scan.set_output_path(name, free), Err(ParseError::OutputExists));
    assert_eq!(*scan.output_path(), None);
    assert_eq!(scan.phase(), ScanPhase::Configured);
}
