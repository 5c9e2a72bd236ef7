//! Configuration model and scan logic of a sequential TCP port scanner.
//!
//! The crate parses and validates what a scan is configured with (a port
//! range, a scan type, a target address, an output path) and decides, step
//! by step, what a scan does next. It performs no input or output itself:
//! a driver connects to the ports and writes the result, and reports back
//! what happened.

pub mod error;
pub mod text;
pub mod port_range;
pub mod scan_type;
pub mod target;
pub mod utils;
pub mod port_scan;
pub mod run;
pub mod cli;
