//! The strategy by which a port is probed.

use crate::error::ParseError;
use crate::text::chars_of;
use vstd::prelude::*;

verus! {

/// How a port is probed: by a half-open SYN probe, or by a full TCP
/// connection. Only the second has an implementation.
#[derive(Debug, Clone, Copy, PartialEq, Eq, Structural)]
pub enum ScanType {
    Syn,
    Connect,
}

/// `c` with an upper-case ASCII letter replaced by its lower-case form.
pub open spec fn ascii_lower(c: char) -> char {
    if 'A' <= c && c <= 'Z' {
        ((c as u8) + 32) as char
    } else {
        c
    }
}

/// `s` with every upper-case ASCII letter replaced by its lower-case form.
pub open spec fn ascii_lowercase(s: Seq<char>) -> Seq<char> {
    s.map_values(|c: char| ascii_lower(c))
}

/// The name of the SYN scan.
pub open spec fn syn_name() -> Seq<char> {
    seq!['s', 'y', 'n']
}

/// The name of the connect scan.
pub open spec fn connect_name() -> Seq<char> {
    seq!['c', 'o', 'n', 'n', 'e', 'c', 't']
}

/// The scan type that `s` names, whatever the case of its letters.
pub open spec fn scan_type_of(s: Seq<char>) -> Option<ScanType> {
    if ascii_lowercase(s) == syn_name() {
        Some(ScanType::Syn)
    } else if ascii_lowercase(s) == connect_name() {
        Some(ScanType::Connect)
    } else {
        None
    }
}

/// The lower-case form of `c`.
pub fn lower(c: char) -> (r: char)
    ensures
        r == ascii_lower(c),
{
    if 'A' <= c && c <= 'Z' {
        ((c as u8) + 32) as char
    } else {
        c
    }
}

/// Whether `s` reads as `name` once its letters are lowered.
pub fn matches_ignoring_case(s: &Vec<char>, name: &Vec<char>) -> (r: bool)
    ensures
        r == (ascii_lowercase(s@) == name@),
{
    if s.len() != name.len() {
        assert(ascii_lowercase(s@).len() == s@.len());
        return false;
    }
    let mut i: usize = 0;
    while i < s.len()
        invariant
            0 <= i <= s.len(),
            s.len() == name.len(),
            forall|j: int| 0 <= j < i ==> ascii_lower(#[trigger] s@[j]) == name@[j],
        decreases s.len() - i,
    {
        if lower(s[i]) != name[i] {
            assert(ascii_lowercase(s@)[i as int] == ascii_lower(s@[i as int]));
            return false;
        }
        i += 1;
    }
    assert(ascii_lowercase(s@) =~= name@);
    true
}

/// Reads a scan type: `syn` or `connect`, in any mix of upper and lower
/// case. Everything else is refused.
pub fn str_to_scan_type(arg: &str) -> (r: Result<ScanType, ParseError>)
    ensures
        match scan_type_of(arg@) {
            Some(scan_type) => r == Ok::<ScanType, ParseError>(scan_type),
            None => r == Err::<ScanType, ParseError>(ParseError::InvalidScanType),
        },
{
    let chars = chars_of(arg);
    let syn: Vec<char> = vec!['s', 'y', 'n'];
    let connect: Vec<char> = vec!['c', 'o', 'n', 'n', 'e', 'c', 't'];
    assert(syn@ =~= syn_name());
    assert(connect@ =~= connect_name());
    if matches_ignoring_case(&chars, &syn) {
        Ok(ScanType::Syn)
    } else if matches_ignoring_case(&chars, &connect) {
        Ok(ScanType::Connect)
    } else {
        Err(ParseError::InvalidScanType)
    }
}

/// Two texts that differ only in the case of their ASCII letters name the
/// same scan type, or both name none.
pub proof fn lemma_scan_type_ignores_case(s: Seq<char>, t: Seq<char>)
    requires
        ascii_lowercase(s) == ascii_lowercase(t),
    ensures
        scan_type_of(s) == scan_type_of(t),
{
}

/// Lowering a text that is already lowered changes nothing.
pub proof fn lemma_lowercase_idempotent(s: Seq<char>)
    ensures
        ascii_lowercase(ascii_lowercase(s)) == ascii_lowercase(s),
{
    assert(ascii_lowercase(ascii_lowercase(s)) =~= ascii_lowercase(s));
}

/// A text names the SYN scan exactly when it has three characters that
/// are `s`, `y` and `n` in either case, and the connect scan exactly when
/// it has the seven characters of `connect` in either case.
pub proof fn lemma_scan_type_names(s: Seq<char>)
    ensures
        scan_type_of(s) == Some(ScanType::Syn) <==> {
            &&& s.len() == 3
            &&& (s[0] == 's' || s[0] == 'S')
            &&& (s[1] == 'y' || s[1] == 'Y')
            &&& (s[2] == 'n' || s[2] == 'N')
        },
        scan_type_of(s) == Some(ScanType::Connect) <==> {
            &&& s.len() == 7
            &&& (s[0] == 'c' || s[0] == 'C')
            &&& (s[1] == 'o' || s[1] == 'O')
            &&& (s[2] == 'n' || s[2] == 'N')
            &&& (s[3] == 'n' || s[3] == 'N')
            &&& (s[4] == 'e' || s[4] == 'E')
            &&& (s[5] == 'c' || s[5] == 'C')
            &&& (s[6] == 't' || s[6] == 'T')
        },
{
    let l = ascii_lowercase(s);
    assert(l.len() == s.len());
    if s.len() == 3 {
        assert(l[0] == ascii_lower(s[0]) && l[1] == ascii_lower(s[1]) && l[2] == ascii_lower(s[2]));
        if (s[0] == 's' || s[0] == 'S') && (s[1] == 'y' || s[1] == 'Y') && (s[2] == 'n' || s[2]
            == 'N') {
            assert(l =~= syn_name());
        }
    }
    if s.len() == 7 {
        assert(l[0] == ascii_lower(s[0]) && l[1] == ascii_lower(s[1]) && l[2] == ascii_lower(s[2]));
        assert(l[3] == ascii_lower(s[3]) && l[4] == ascii_lower(s[4]) && l[5] == ascii_lower(s[5]));
        assert(l[6] == ascii_lower(s[6]));
        if (s[0] == 'c' || s[0] == 'C') && (s[1] == 'o' || s[1] == 'O') && (s[2] == 'n' || s[2]
            == 'N') && (s[3] == 'n' || s[3] == 'N') && (s[4] == 'e' || s[4] == 'E') && (s[5] == 'c'
            || s[5] == 'C') && (s[6] == 't' || s[6] == 'T') {
            assert(l =~= connect_name());
        }
    }
}

} // verus!
