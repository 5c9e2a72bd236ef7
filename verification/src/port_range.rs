//! The ports a scan covers: one port, or every port of an inclusive interval.

use crate::error::ParseError;
use crate::text::{
    bounded_decimal, chars_of, decimal_text, decimal_value, free_of, is_decimal, is_decimal_digit,
    join, lemma_decimal_text_value, lemma_join_split, lemma_split_pair, lemma_split_without_separator,
    parse_decimal, split, split_at_char, views,
};
use vstd::prelude::*;

verus! {

/// The character between the two bounds of an interval.
pub const PORT_DELIMITER: char = '-';

/// A single port, or the ports from a first to a last one, both included.
#[derive(Debug, Clone, Copy, PartialEq, Eq, Structural)]
pub enum PortRange {
    Single(u16),
    Range(u16, u16),
}

/// Why two texts are not the bounds of an interval.
#[derive(Debug, Clone, Copy)]
pub enum PortRangeError {
    /// Both bounds are ports, but the first lies above the last.
    InvalidPortRange(&'static str),
    /// One of the bounds is not a port number.
    InvalidPortNumber(&'static str),
}

impl PortRange {
    /// An interval is well formed when it does not end before it starts.
    pub open spec fn wf(self) -> bool {
        match self {
            PortRange::Single(_) => true,
            PortRange::Range(start, end) => start <= end,
        }
    }

    /// The lowest port of the range.
    pub open spec fn first(self) -> u16 {
        match self {
            PortRange::Single(port) => port,
            PortRange::Range(start, _) => start,
        }
    }

    /// The highest port of the range.
    pub open spec fn last(self) -> u16 {
        match self {
            PortRange::Single(port) => port,
            PortRange::Range(_, end) => end,
        }
    }

    /// Whether `port` is one of the ports of the range.
    pub open spec fn contains(self, port: u16) -> bool {
        self.first() <= port <= self.last()
    }

    /// How many ports the range holds.
    pub open spec fn count(self) -> nat {
        if self.first() <= self.last() {
            (self.last() - self.first() + 1) as nat
        } else {
            0
        }
    }

    /// The lowest port of the range.
    pub fn first_port(&self) -> (port: u16)
        ensures
            port == self.first(),
    {
        match self {
            PortRange::Single(port) => *port,
            PortRange::Range(start, _) => *start,
        }
    }

    /// The highest port of the range.
    pub fn last_port(&self) -> (port: u16)
        ensures
            port == self.last(),
    {
        match self {
            PortRange::Single(port) => *port,
            PortRange::Range(_, end) => *end,
        }
    }
}

/// The port that `s` names: a non-empty run of decimal digits whose value
/// fits in sixteen bits. Leading zeros are digits like any other; a sign,
/// a blank or any other character is not.
pub open spec fn port_number(s: Seq<char>) -> Option<u16> {
    match bounded_decimal(s, 65535) {
        Some(n) => Some(n as u16),
        None => None,
    }
}

/// The interval with the bounds that `start` and `end` name, if both name a
/// port and the first is not above the second.
pub open spec fn range_of_bounds(start: Seq<char>, end: Seq<char>) -> Option<PortRange> {
    match (port_number(start), port_number(end)) {
        (Some(s), Some(e)) => if s <= e {
            Some(PortRange::Range(s, e))
        } else {
            None
        },
        _ => None,
    }
}

/// The range that the pieces of a port specification name: one piece is a
/// single port, two pieces are the bounds of an interval, any other number
/// of pieces names nothing.
pub open spec fn range_of_pieces(pieces: Seq<Seq<char>>) -> Option<PortRange> {
    if pieces.len() == 1 {
        match port_number(pieces[0]) {
            Some(port) => Some(PortRange::Single(port)),
            None => None,
        }
    } else if pieces.len() == 2 {
        range_of_bounds(pieces[0], pieces[1])
    } else {
        None
    }
}

/// The range that the text `s` names, if any.
pub open spec fn port_range_of(s: Seq<char>) -> Option<PortRange> {
    range_of_pieces(split(s, PORT_DELIMITER))
}

/// Reads `s` as a port number.
pub fn parse_port(s: &Vec<char>) -> (r: Option<u16>)
    ensures
        r == port_number(s@),
{
    match parse_decimal(s, 65535) {
        Some(n) => Some(n as u16),
        None => None,
    }
}

/// Builds the interval between the bounds that two pieces of text name.
pub fn range_from_bounds(start: &Vec<char>, end: &Vec<char>) -> (r: Result<
    PortRange,
    PortRangeError,
>)
    ensures
        match r {
            Ok(range) => range_of_bounds(start@, end@) == Some(range),
            Err(PortRangeError::InvalidPortNumber(m)) => {
                &&& port_number(start@) is None || port_number(end@) is None
                &&& m@ == "Invalid port number"@
            },
            Err(PortRangeError::InvalidPortRange(m)) => {
                &&& port_number(start@) matches Some(s)
                &&& port_number(end@) matches Some(e)
                &&& s > e
                &&& m@ == "Invalid port range"@
            },
        },
{
    let start = match parse_port(start) {
        Some(port) => port,
        None => {
            return Err(PortRangeError::InvalidPortNumber("Invalid port number"));
        },
    };
    let end = match parse_port(end) {
        Some(port) => port,
        None => {
            return Err(PortRangeError::InvalidPortNumber("Invalid port number"));
        },
    };
    if start <= end {
        Ok(PortRange::Range(start, end))
    } else {
        Err(PortRangeError::InvalidPortRange("Invalid port range"))
    }
}

/// Checks that `start` and `end` are the bounds of an interval of ports and
/// builds it. Fails with `InvalidPortNumber` when one of them is not a port
/// number, and with `InvalidPortRange` when the first lies above the last.
pub fn check_port_range(start: &str, end: &str) -> (r: Result<PortRange, PortRangeError>)
    ensures
        match r {
            Ok(range) => range_of_bounds(start@, end@) == Some(range) && range.wf(),
            Err(PortRangeError::InvalidPortNumber(m)) => {
                &&& port_number(start@) is None || port_number(end@) is None
                &&& m@ == "Invalid port number"@
            },
            Err(PortRangeError::InvalidPortRange(m)) => {
                &&& port_number(start@) matches Some(s)
                &&& port_number(end@) matches Some(e)
                &&& s > e
                &&& m@ == "Invalid port range"@
            },
        },
{
    let start = chars_of(start);
    let end = chars_of(end);
    range_from_bounds(&start, &end)
}

/// Reads a port specification: `"N"` for the port `N`, `"A-B"` for the
/// ports from `A` to `B`. Everything else is refused, including an interval
/// whose first bound lies above its last.
pub fn str_to_port_range(arg: &str) -> (r: Result<PortRange, ParseError>)
    ensures
        match port_range_of(arg@) {
            Some(range) => r == Ok::<PortRange, ParseError>(range),
            None => r == Err::<PortRange, ParseError>(ParseError::InvalidPortRange),
        },
        r matches Ok(range) ==> range.wf(),
{
    let chars = chars_of(arg);
    let parts = split_at_char(&chars, PORT_DELIMITER);
    assert(parts@.len() == views(parts@).len());
    if parts.len() == 2 {
        assert(views(parts@)[0] == parts@[0]@);
        assert(views(parts@)[1] == parts@[1]@);
        match range_from_bounds(&parts[0], &parts[1]) {
            Ok(range) => Ok(range),
            Err(_) => Err(ParseError::InvalidPortRange),
        }
    } else if parts.len() == 1 {
        assert(views(parts@)[0] == parts@[0]@);
        match parse_port(&parts[0]) {
            Some(port) => Ok(PortRange::Single(port)),
            None => Err(ParseError::InvalidPortRange),
        }
    } else {
        Err(ParseError::InvalidPortRange)
    }
}

/// A digit string holds no delimiter.
pub proof fn lemma_digits_hold_no_delimiter(s: Seq<char>)
    requires
        is_decimal(s),
    ensures
        free_of(s, PORT_DELIMITER),
{
    assert forall|i: int| 0 <= i < s.len() implies #[trigger] s[i] != PORT_DELIMITER by {
        assert(is_decimal_digit(s[i]));
    }
}

/// Only a digit string names a single port, and the port is its value.
/// Only two digit strings with one delimiter between them name an
/// interval, and its bounds are their values.
pub proof fn lemma_named_ranges(s: Seq<char>)
    ensures
        port_range_of(s) matches Some(PortRange::Single(port)) ==> is_decimal(s) && decimal_value(s)
            == port,
        port_range_of(s) matches Some(PortRange::Range(start, end)) ==> {
            let a = split(s, PORT_DELIMITER)[0];
            let b = split(s, PORT_DELIMITER)[1];
            &&& s == a + seq![PORT_DELIMITER] + b
            &&& is_decimal(a)
            &&& is_decimal(b)
            &&& decimal_value(a) == start
            &&& decimal_value(b) == end
            &&& start <= end
        },
{
    let pieces = split(s, PORT_DELIMITER);
    lemma_join_split(s, PORT_DELIMITER);
    if pieces.len() == 2 {
        let front = pieces.drop_last();
        assert(front.len() == 1 && front[0] == pieces[0]);
        assert(join(front, PORT_DELIMITER) == pieces[0]);
        assert(join(pieces, PORT_DELIMITER) == pieces[0] + seq![PORT_DELIMITER] + pieces[1]);
    }
}

/// Every digit string whose value fits in sixteen bits names that single
/// port.
pub proof fn lemma_single_port_text(s: Seq<char>)
    requires
        is_decimal(s),
        decimal_value(s) <= 65535,
    ensures
        port_range_of(s) == Some(PortRange::Single(decimal_value(s) as u16)),
{
    lemma_digits_hold_no_delimiter(s);
    lemma_split_without_separator(s, PORT_DELIMITER);
}

/// Two digit strings with a delimiter between them name the interval from
/// the first value to the second when the first is not the greater, and
/// nothing when it is.
pub proof fn lemma_port_interval_text(a: Seq<char>, b: Seq<char>)
    requires
        is_decimal(a),
        is_decimal(b),
        decimal_value(a) <= 65535,
        decimal_value(b) <= 65535,
    ensures
        port_range_of(a + seq![PORT_DELIMITER] + b) == (if decimal_value(a) <= decimal_value(b) {
            Some(PortRange::Range(decimal_value(a) as u16, decimal_value(b) as u16))
        } else {
            None
        }),
{
    lemma_digits_hold_no_delimiter(a);
    lemma_digits_hold_no_delimiter(b);
    lemma_split_pair(a, b, PORT_DELIMITER);
}

/// The decimal text of any port names that port.
pub proof fn lemma_port_text(port: u16)
    ensures
        port_range_of(decimal_text(port as nat)) == Some(PortRange::Single(port)),
{
    lemma_decimal_text_value(port as nat);
    lemma_single_port_text(decimal_text(port as nat));
}

/// The decimal texts of two ports with a delimiter between them name the
/// interval between the two when the first is not the greater, and nothing
/// when it is.
pub proof fn lemma_interval_text(start: u16, end: u16)
    ensures
        port_range_of(decimal_text(start as nat) + seq![PORT_DELIMITER] + decimal_text(end as nat))
            == (if start <= end {
            Some(PortRange::Range(start, end))
        } else {
            None
        }),
{
    lemma_decimal_text_value(start as nat);
    lemma_decimal_text_value(end as nat);
    lemma_port_interval_text(decimal_text(start as nat), decimal_text(end as nat));
}

} // verus!
