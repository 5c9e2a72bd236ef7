//! The command line of the scanner, read into the steps that configure a
//! scan, and the way the program ends. Nothing is printed and nothing is
//! set here: the steps say what the program is to do, in order.

use crate::error::{IoFailure, ParseError, ScanError};
use crate::text::chars_of;
use vstd::prelude::*;

verus! {

/// An option that takes a value.
#[derive(Debug, Clone, Copy, PartialEq, Eq, Structural)]
pub enum CliFlag {
    /// `-p`, `--port`: the ports to scan.
    Port,
    /// `-s`, `--scan`: the scan type.
    Scan,
    /// `-o`, `--output`: the path the result is written to.
    Output,
}

impl CliFlag {
    /// The one-line message for this option standing without its value.
    pub fn missing_value_message(&self) -> (m: &'static str)
        ensures
            m@ == (match *self {
                CliFlag::Port => "No port specified"@,
                CliFlag::Scan => "No scan type specified"@,
                CliFlag::Output => "No output file specified"@,
            }),
    {
        match self {
            CliFlag::Port => "No port specified",
            CliFlag::Scan => "No scan type specified",
            CliFlag::Output => "No output file specified",
        }
    }
}

/// One thing the program is to do for its command line.
#[derive(Debug, PartialEq, Eq)]
pub enum CliStep {
    /// Print the usage and leave with success, with nothing configured.
    Help,
    /// Hand this value to the setter of this option.
    Assign(CliFlag, String),
    /// This option stands last, without its value: leave with failure.
    MissingValue(CliFlag),
    /// This argument looks like an option and is none: warn and go on.
    Unknown(String),
    /// Take this argument, the last, as the target.
    Target(String),
    /// There is no argument at all: leave with failure.
    NoTarget,
}

/// A step as contracts see it.
pub enum CliStepView {
    Help,
    Assign(CliFlag, Seq<char>),
    MissingValue(CliFlag),
    Unknown(Seq<char>),
    Target(Seq<char>),
    NoTarget,
}

impl View for CliStep {
    type V = CliStepView;

    open spec fn view(&self) -> CliStepView {
        match *self {
            CliStep::Help => CliStepView::Help,
            CliStep::Assign(flag, value) => CliStepView::Assign(flag, value@),
            CliStep::MissingValue(flag) => CliStepView::MissingValue(flag),
            CliStep::Unknown(arg) => CliStepView::Unknown(arg@),
            CliStep::Target(arg) => CliStepView::Target(arg@),
            CliStep::NoTarget => CliStepView::NoTarget,
        }
    }
}

/// The texts of a command line.
pub open spec fn texts(args: Seq<String>) -> Seq<Seq<char>> {
    args.map_values(|a: String| a@)
}

/// The views of a list of steps.
pub open spec fn step_views(steps: Seq<CliStep>) -> Seq<CliStepView> {
    steps.map_values(|s: CliStep| s@)
}

/// Whether an argument looks like an option: it starts with a dash.
pub open spec fn looks_like_option(arg: Seq<char>) -> bool {
    arg.len() > 0 && arg[0] == '-'
}

/// Whether an argument asks for the usage.
pub open spec fn is_help(arg: Seq<char>) -> bool {
    arg == seq!['-', 'h'] || arg == seq!['-', '-', 'h', 'e', 'l', 'p']
}

/// The option that takes a value which an argument names, if it names one.
pub open spec fn flag_of(arg: Seq<char>) -> Option<CliFlag> {
    if arg == seq!['-', 'p'] || arg == seq!['-', '-', 'p', 'o', 'r', 't'] {
        Some(CliFlag::Port)
    } else if arg == seq!['-', 's'] || arg == seq!['-', '-', 's', 'c', 'a', 'n'] {
        Some(CliFlag::Scan)
    } else if arg == seq!['-', 'o'] || arg == seq!['-', '-', 'o', 'u', 't', 'p', 'u', 't'] {
        Some(CliFlag::Output)
    } else {
        None
    }
}

/// Whether one of the arguments asks for the usage. The argument at
/// position 0 is the name of the program and asks for nothing.
pub open spec fn help_asked(args: Seq<Seq<char>>) -> bool {
    exists|i: int| 1 <= i < args.len() && is_help(#[trigger] args[i])
}

/// What the argument at position `i` calls for. An argument that does not
/// look like an option calls for nothing where it stands: it is the value
/// of the option before it, or the target. An option takes the argument
/// after it as its value, whatever that looks like.
pub open spec fn step_at(args: Seq<Seq<char>>, i: int) -> Option<CliStepView> {
    if !looks_like_option(args[i]) {
        None
    } else {
        match flag_of(args[i]) {
            Some(flag) => if i + 1 < args.len() {
                Some(CliStepView::Assign(flag, args[i + 1]))
            } else {
                Some(CliStepView::MissingValue(flag))
            },
            None => Some(CliStepView::Unknown(args[i])),
        }
    }
}

/// The steps that the arguments at the positions from 1 up to, not
/// including, `n` call for, in order.
pub open spec fn steps_before(args: Seq<Seq<char>>, n: int) -> Seq<CliStepView>
    decreases n,
{
    if n <= 1 {
        Seq::empty()
    } else {
        match step_at(args, n - 1) {
            Some(step) => steps_before(args, n - 1).push(step),
            None => steps_before(args, n - 1),
        }
    }
}

/// The steps that a command line calls for. Without any argument it is
/// `NoTarget` alone. Where an argument asks for the usage it is `Help`
/// alone: nothing is configured then. Else it is the steps of the
/// arguments in order, then the last argument taken as the target.
pub open spec fn steps_of(args: Seq<Seq<char>>) -> Seq<CliStepView> {
    if args.len() < 2 {
        seq![CliStepView::NoTarget]
    } else if help_asked(args) {
        seq![CliStepView::Help]
    } else {
        steps_before(args, args.len() as int).push(CliStepView::Target(args.last()))
    }
}

/// Whether `arg` is the text `name`.
fn is_text(arg: &Vec<char>, name: &Vec<char>) -> (r: bool)
    ensures
        r == (arg@ == name@),
{
    if arg.len() != name.len() {
        return false;
    }
    let mut i: usize = 0;
    while i < arg.len()
        invariant
            0 <= i <= arg.len(),
            arg.len() == name.len(),
            forall|j: int| 0 <= j < i ==> arg@[j] == name@[j],
        decreases arg.len() - i,
    {
        if arg[i] != name[i] {
            return false;
        }
        i += 1;
    }
    assert(arg@ =~= name@);
    true
}

/// Whether an argument asks for the usage.
pub fn asks_for_help(arg: &Vec<char>) -> (r: bool)
    ensures
        r == is_help(arg@),
{
    let short: Vec<char> = vec!['-', 'h'];
    let long: Vec<char> = vec!['-', '-', 'h', 'e', 'l', 'p'];
    assert(short@ =~= seq!['-', 'h']);
    assert(long@ =~= seq!['-', '-', 'h', 'e', 'l', 'p']);
    is_text(arg, &short) || is_text(arg, &long)
}

/// The option that takes a value which an argument names, if it names one.
pub fn flag_named(arg: &Vec<char>) -> (r: Option<CliFlag>)
    ensures
        r == flag_of(arg@),
{
    let port_short: Vec<char> = vec!['-', 'p'];
    let port_long: Vec<char> = vec!['-', '-', 'p', 'o', 'r', 't'];
    let scan_short: Vec<char> = vec!['-', 's'];
    let scan_long: Vec<char> = vec!['-', '-', 's', 'c', 'a', 'n'];
    let output_short: Vec<char> = vec!['-', 'o'];
    let output_long: Vec<char> = vec!['-', '-', 'o', 'u', 't', 'p', 'u', 't'];
    assert(port_short@ =~= seq!['-', 'p']);
    assert(port_long@ =~= seq!['-', '-', 'p', 'o', 'r', 't']);
    assert(scan_short@ =~= seq!['-', 's']);
    assert(scan_long@ =~= seq!['-', '-', 's', 'c', 'a', 'n']);
    assert(output_short@ =~= seq!['-', 'o']);
    assert(output_long@ =~= seq!['-', '-', 'o', 'u', 't', 'p', 'u', 't']);
    if is_text(arg, &port_short) || is_text(arg, &port_long) {
        Some(CliFlag::Port)
    } else if is_text(arg, &scan_short) || is_text(arg, &scan_long) {
        Some(CliFlag::Scan)
    } else if is_text(arg, &output_short) || is_text(arg, &output_long) {
        Some(CliFlag::Output)
    } else {
        None
    }
}

/// Whether one of the arguments asks for the usage.
pub fn asks_for_usage(args: &Vec<String>) -> (r: bool)
    ensures
        r == help_asked(texts(args@)),
{
    let ghost all = texts(args@);
    assert(all.len() == args@.len());
    let mut i: usize = 1;
    while i < args.len()
        invariant
            1 <= i,
            all == texts(args@),
            all.len() == args@.len(),
            forall|j: int| 1 <= j < i && j < all.len() ==> !is_help(#[trigger] all[j]),
        decreases args.len() - i,
    {
        assert(all[i as int] == args@[i as int]@);
        let arg = chars_of(args[i].as_str());
        if asks_for_help(&arg) {
            return true;
        }
        i += 1;
    }
    false
}

/// Reads a command line, the name of the program first, into the steps it
/// calls for.
pub fn parse_args(args: &Vec<String>) -> (steps: Vec<CliStep>)
    ensures
        step_views(steps@) == steps_of(texts(args@)),
{
    let ghost all = texts(args@);
    assert(all.len() == args@.len());
    let mut steps: Vec<CliStep> = Vec::new();
    if args.len() < 2 {
        steps.push(CliStep::NoTarget);
        assert(step_views(steps@) =~= seq![CliStepView::NoTarget]);
        return steps;
    }
    if asks_for_usage(args) {
        steps.push(CliStep::Help);
        assert(step_views(steps@) =~= seq![CliStepView::Help]);
        return steps;
    }
    let mut i: usize = 1;
    assert(step_views(steps@) =~= steps_before(all, 1));
    while i < args.len()
        invariant
            1 <= i <= args.len(),
            all == texts(args@),
            step_views(steps@) == steps_before(all, i as int),
        decreases args.len() - i,
    {
        let ghost before = step_views(steps@);
        assert(all[i as int] == args@[i as int]@);
        let arg = chars_of(args[i].as_str());
        if arg.len() > 0 && arg[0] == '-' {
            match flag_named(&arg) {
                Some(flag) => {
                    if i + 1 < args.len() {
                        assert(all[i + 1] == args@[i + 1]@);
                        let value = args[i + 1].clone();
                        steps.push(CliStep::Assign(flag, value));
                        assert(step_views(steps@) =~= before.push(
                            CliStepView::Assign(flag, all[i + 1]),
                        ));
                    } else {
                        steps.push(CliStep::MissingValue(flag));
                        assert(step_views(steps@) =~= before.push(CliStepView::MissingValue(flag)));
                    }
                },
                None => {
                    let unknown = args[i].clone();
                    steps.push(CliStep::Unknown(unknown));
                    assert(step_views(steps@) =~= before.push(CliStepView::Unknown(all[i as int])));
                },
            }
        }
        i += 1;
    }
    let ghost before = step_views(steps@);
    assert(all.last() == args@[args.len() - 1]@);
    let target = args[args.len() - 1].clone();
    steps.push(CliStep::Target(target));
    assert(step_views(steps@) =~= before.push(CliStepView::Target(all.last())));
    steps
}

/// Why the program ends without a completed scan.
#[derive(Debug, Clone, Copy, PartialEq, Eq, Structural)]
pub enum Failure {
    /// The command line names no target.
    NoTarget,
    /// An option stands without its value.
    MissingValue(CliFlag),
    /// A piece of configuration was refused.
    Configuration(ParseError),
    /// The scan stopped before its end.
    Scan(ScanError),
}

/// How the program ends.
#[derive(Debug, Clone, Copy, PartialEq, Eq, Structural)]
pub enum Outcome {
    /// The scan ran to its end.
    Scanned,
    /// The usage was asked for and printed.
    HelpShown,
    /// Something went wrong.
    Failed(Failure),
}

/// The exit code of each outcome: 0 for a scan that ran to its end and for
/// the usage, 1 for every failure.
pub open spec fn exit_code_of(outcome: Outcome) -> i32 {
    match outcome {
        Outcome::Scanned => 0,
        Outcome::HelpShown => 0,
        Outcome::Failed(_) => 1,
    }
}

impl Failure {
    /// The one-line message shown to the user.
    pub fn message(&self) -> (m: &'static str)
        ensures
            m@ == (match *self {
                Failure::NoTarget => "No target specified"@,
                Failure::MissingValue(CliFlag::Port) => "No port specified"@,
                Failure::MissingValue(CliFlag::Scan) => "No scan type specified"@,
                Failure::MissingValue(CliFlag::Output) => "No output file specified"@,
                Failure::Configuration(ParseError::InvalidPortRange) => "Invalid port range"@,
                Failure::Configuration(ParseError::InvalidScanType) => "Wrong scan type specified"@,
                Failure::Configuration(ParseError::InvalidTarget) => "Invalid IP address"@,
                Failure::Configuration(ParseError::OutputExists) => "Output file already exists"@,
                Failure::Scan(ScanError::IoError(IoFailure::Create)) => "Error creating output file"@,
                Failure::Scan(ScanError::IoError(IoFailure::Write)) =>
                    "Error writing scan result in file"@,
                Failure::Scan(ScanError::SerializationError) => "Error serializing scan result"@,
                Failure::Scan(ScanError::Unimplemented) => "SYN scan not implemented yet."@,
            }),
    {
        match self {
            Failure::NoTarget => "No target specified",
            Failure::MissingValue(flag) => flag.missing_value_message(),
            Failure::Configuration(e) => e.message(),
            Failure::Scan(e) => e.message(),
        }
    }
}

/// The exit code of the program.
pub fn exit_code(outcome: &Outcome) -> (code: i32)
    ensures
        code == exit_code_of(*outcome),
{
    match outcome {
        Outcome::Scanned => 0,
        Outcome::HelpShown => 0,
        Outcome::Failed(_) => 1,
    }
}

} // verus!
