//! The address a scan is aimed at: an IPv4 or IPv6 literal. Names are not
//! resolved.

use crate::error::ParseError;
use crate::text::{
    bounded_decimal, chars_of, decimal_text, free_of, hex_text, hex_value, is_decimal_digit,
    is_hex, is_hex_digit, join, lemma_decimal_text_shape, lemma_decimal_text_value,
    lemma_hex_text_value, lemma_hex_value_fits, lemma_join_free_of,
    lemma_join_keeps_separators_apart, lemma_split_append, lemma_split_join,
    lemma_split_without_separator, parse_decimal, parse_hex_group, slice_of, split, split_at_char,
    views,
};
use vstd::prelude::*;

verus! {

/// A validated address: the four octets of an IPv4 address, or the eight
/// sixteen-bit groups of an IPv6 address, most significant first.
#[derive(Debug, Clone, Copy, PartialEq, Eq, Structural)]
pub enum ScanTarget {
    V4(u8, u8, u8, u8),
    V6(u16, u16, u16, u16, u16, u16, u16, u16),
}

/// The octet that `s` names in a dotted quad: one to three decimal digits
/// with a value of at most 255, and no leading zero before another digit.
pub open spec fn ipv4_octet(s: Seq<char>) -> Option<u8> {
    if s.len() <= 3 && (s.len() > 1 ==> s[0] != '0') {
        match bounded_decimal(s, 255) {
            Some(n) => Some(n as u8),
            None => None,
        }
    } else {
        None
    }
}

/// The four octets that the pieces of a dotted quad name.
pub open spec fn ipv4_of_pieces(pieces: Seq<Seq<char>>) -> Option<Seq<u8>> {
    if pieces.len() == 4 && forall|i: int| 0 <= i < 4 ==> (#[trigger] ipv4_octet(pieces[i])) is Some {
        Some(Seq::new(4, |i: int| ipv4_octet(pieces[i])->0))
    } else {
        None
    }
}

/// The four octets of the IPv4 address that `s` is the literal of: four
/// octets with a dot between each two.
pub open spec fn ipv4_of(s: Seq<char>) -> Option<Seq<u8>> {
    ipv4_of_pieces(split(s, '.'))
}

/// Reads one octet of a dotted quad.
pub fn parse_octet(s: &Vec<char>) -> (r: Option<u8>)
    ensures
        r == ipv4_octet(s@),
{
    if s.len() > 3 {
        return None;
    }
    if s.len() > 1 && s[0] == '0' {
        return None;
    }
    match parse_decimal(s, 255) {
        Some(n) => Some(n as u8),
        None => None,
    }
}

/// Reads the four octets of a dotted quad from its pieces.
pub fn parse_ipv4_pieces(pieces: &Vec<Vec<char>>) -> (r: Option<Vec<u8>>)
    ensures
        match ipv4_of_pieces(views(pieces@)) {
            Some(octets) => r matches Some(v) && v@ == octets,
            None => r is None,
        },
{
    assert(pieces@.len() == views(pieces@).len());
    if pieces.len() != 4 {
        return None;
    }
    let mut octets: Vec<u8> = Vec::new();
    let mut i: usize = 0;
    while i < 4
        invariant
            0 <= i <= 4,
            pieces.len() == 4,
            octets.len() == i,
            forall|j: int| 0 <= j < i ==> ipv4_octet(#[trigger] views(pieces@)[j]) == Some(octets@[j]),
        decreases 4 - i,
    {
        assert(views(pieces@)[i as int] == pieces@[i as int]@);
        match parse_octet(&pieces[i]) {
            Some(octet) => {
                octets.push(octet);
            },
            None => {
                return None;
            },
        }
        i += 1;
    }
    assert(octets@ =~= ipv4_of_pieces(views(pieces@))->0);
    Some(octets)
}

/// The group that `s` names in an IPv6 literal: one to four hexadecimal
/// digits, in either case.
pub open spec fn ipv6_group(s: Seq<char>) -> Option<u16> {
    if is_hex(s) && s.len() <= 4 {
        Some(hex_value(s) as u16)
    } else {
        None
    }
}

/// The groups that `pieces` name when each of them is a group.
pub open spec fn plain_groups(pieces: Seq<Seq<char>>) -> Option<Seq<u16>> {
    if forall|i: int| 0 <= i < pieces.len() ==> (#[trigger] ipv6_group(pieces[i])) is Some {
        Some(Seq::new(pieces.len(), |i: int| ipv6_group(pieces[i])->0))
    } else {
        None
    }
}

/// The two groups that the four octets of a dotted quad fill.
pub open spec fn quad_groups(octets: Seq<u8>) -> Seq<u16> {
    seq![(octets[0] * 256 + octets[1]) as u16, (octets[2] * 256 + octets[3]) as u16]
}

/// The groups that the colon-separated `pieces` name. Each piece is a
/// group; where `quad_allowed`, the last piece may be a dotted quad
/// instead, which stands for two groups.
pub open spec fn groups_of_pieces(pieces: Seq<Seq<char>>, quad_allowed: bool) -> Option<Seq<u16>> {
    if pieces.len() == 0 {
        Some(Seq::empty())
    } else {
        match plain_groups(pieces.drop_last()) {
            None => None,
            Some(front) => match ipv6_group(pieces.last()) {
                Some(group) => Some(front.push(group)),
                None => if quad_allowed {
                    match ipv4_of(pieces.last()) {
                        Some(octets) => Some(front + quad_groups(octets)),
                        None => None,
                    }
                } else {
                    None
                },
            },
        }
    }
}

/// The groups that one side of a `::` names: none if the side is empty,
/// else those of its colon-separated pieces.
pub open spec fn groups_of_side(side: Seq<char>, quad_allowed: bool) -> Option<Seq<u16>> {
    if side.len() == 0 {
        Some(Seq::empty())
    } else {
        groups_of_pieces(split(side, ':'), quad_allowed)
    }
}

/// Whether two colons stand at the positions `i` and `i + 1` of `s`.
pub open spec fn double_colon_at(s: Seq<char>, i: int) -> bool {
    0 <= i && i + 1 < s.len() && s[i] == ':' && s[i + 1] == ':'
}

/// Whether `i` is the first position of `s` at which two colons stand.
pub open spec fn first_double_colon_at(s: Seq<char>, i: int) -> bool {
    double_colon_at(s, i) && forall|j: int| 0 <= j < i ==> !double_colon_at(s, j)
}

/// The first position of `s` at which two colons stand, if there is one.
pub open spec fn first_double_colon(s: Seq<char>) -> Option<int> {
    if exists|i: int| first_double_colon_at(s, i) {
        Some(choose|i: int| first_double_colon_at(s, i))
    } else {
        None
    }
}

/// The eight groups of the IPv6 address that `s` is the literal of.
///
/// Without `::`, the literal is eight groups with a colon between each
/// two, the last two of which may be written as a dotted quad. With `::`,
/// the groups before it (no dotted quad among them) open the address, the
/// groups after it (the last two may be a dotted quad) close it, and the
/// `::` stands for the zero groups between: at least one, so the two
/// sides together name at most seven groups.
pub open spec fn ipv6_of(s: Seq<char>) -> Option<Seq<u16>> {
    match first_double_colon(s) {
        None => match groups_of_pieces(split(s, ':'), true) {
            Some(groups) => if groups.len() == 8 {
                Some(groups)
            } else {
                None
            },
            None => None,
        },
        Some(i) => match (
            groups_of_side(s.subrange(0, i), false),
            groups_of_side(s.subrange(i + 2, s.len() as int), true),
        ) {
            (Some(head), Some(tail)) => if head.len() + tail.len() <= 7 {
                Some(head + Seq::new((8 - head.len() - tail.len()) as nat, |k: int| 0u16) + tail)
            } else {
                None
            },
            _ => None,
        },
    }
}

/// The address that `s` is the literal of: an IPv4 address if `s` is a
/// dotted quad, else an IPv6 address if `s` is an IPv6 literal.
pub open spec fn target_of(s: Seq<char>) -> Option<ScanTarget> {
    match ipv4_of(s) {
        Some(o) => Some(ScanTarget::V4(o[0], o[1], o[2], o[3])),
        None => match ipv6_of(s) {
            Some(g) => Some(ScanTarget::V6(g[0], g[1], g[2], g[3], g[4], g[5], g[6], g[7])),
            None => None,
        },
    }
}

/// Reads the groups of colon-separated pieces.
pub fn parse_groups(pieces: &Vec<Vec<char>>, quad_allowed: bool) -> (r: Option<Vec<u16>>)
    ensures
        match groups_of_pieces(views(pieces@), quad_allowed) {
            Some(groups) => r matches Some(v) && v@ == groups,
            None => r is None,
        },
{
    let ghost all = views(pieces@);
    assert(pieces@.len() == all.len());
    if pieces.len() == 0 {
        return Some(Vec::new());
    }
    let n = pieces.len() - 1;
    let ghost front = all.drop_last();
    let mut groups: Vec<u16> = Vec::new();
    let mut i: usize = 0;
    while i < n
        invariant
            0 <= i <= n,
            n == pieces.len() - 1,
            all == views(pieces@),
            front == all.drop_last(),
            groups.len() == i,
            forall|j: int| 0 <= j < i ==> ipv6_group(#[trigger] front[j]) == Some(groups@[j]),
        decreases n - i,
    {
        assert(front[i as int] == pieces@[i as int]@);
        match parse_hex_group(&pieces[i]) {
            Some(group) => {
                groups.push(group);
            },
            None => {
                assert(ipv6_group(front[i as int]) is None);
                return None;
            },
        }
        i += 1;
    }
    assert(groups@ =~= plain_groups(front)->0);
    assert(all.last() == pieces@[n as int]@);
    match parse_hex_group(&pieces[n]) {
        Some(group) => {
            groups.push(group);
            Some(groups)
        },
        None => {
            if !quad_allowed {
                return None;
            }
            let quad = split_at_char(&pieces[n], '.');
            match parse_ipv4_pieces(&quad) {
                Some(octets) => {
                    let ghost before = groups@;
                    groups.push(octets[0] as u16 * 256 + octets[1] as u16);
                    groups.push(octets[2] as u16 * 256 + octets[3] as u16);
                    assert(groups@ =~= before + quad_groups(octets@));
                    Some(groups)
                },
                None => None,
            }
        },
    }
}

/// Reads the groups of one side of a `::`.
pub fn parse_side(side: &Vec<char>, quad_allowed: bool) -> (r: Option<Vec<u16>>)
    ensures
        match groups_of_side(side@, quad_allowed) {
            Some(groups) => r matches Some(v) && v@ == groups,
            None => r is None,
        },
{
    if side.len() == 0 {
        Some(Vec::new())
    } else {
        let pieces = split_at_char(side, ':');
        parse_groups(&pieces, quad_allowed)
    }
}

/// Finds the first place where two colons stand side by side.
pub fn find_double_colon(s: &Vec<char>) -> (r: Option<usize>)
    ensures
        match r {
            Some(i) => first_double_colon(s@) == Some(i as int) && i + 2 <= s.len(),
            None => first_double_colon(s@) is None,
        },
{
    if s.len() < 2 {
        assert forall|k: int| !first_double_colon_at(s@, k) by {}
        return None;
    }
    let mut i: usize = 0;
    while i < s.len() - 1
        invariant
            s.len() >= 2,
            i <= s.len() - 1,
            forall|j: int| 0 <= j < i ==> !double_colon_at(s@, j),
        decreases s.len() - i,
    {
        if s[i] == ':' && s[i + 1] == ':' {
            proof {
                assert(first_double_colon_at(s@, i as int));
                let k = choose|k: int| first_double_colon_at(s@, k);
                assert(first_double_colon_at(s@, k));
                if k < i {
                    assert(!double_colon_at(s@, k));
                }
                if i < k {
                    assert(double_colon_at(s@, i as int));
                }
                assert(k == i);
            }
            return Some(i);
        }
        i += 1;
    }
    proof {
        assert forall|k: int| !first_double_colon_at(s@, k) by {
            if double_colon_at(s@, k) {
                assert(k < i);
            }
        }
    }
    None
}

/// Reads an IPv6 literal.
pub fn parse_ipv6(s: &Vec<char>) -> (r: Option<Vec<u16>>)
    ensures
        match ipv6_of(s@) {
            Some(groups) => r matches Some(v) && v@ == groups,
            None => r is None,
        },
        r matches Some(v) ==> v.len() == 8,
{
    match find_double_colon(s) {
        None => {
            let pieces = split_at_char(s, ':');
            match parse_groups(&pieces, true) {
                Some(groups) => {
                    if groups.len() == 8 {
                        Some(groups)
                    } else {
                        None
                    }
                },
                None => None,
            }
        },
        Some(i) => {
            let head_text = slice_of(s, 0, i);
            let tail_text = slice_of(s, i + 2, s.len());
            let head = match parse_side(&head_text, false) {
                Some(groups) => groups,
                None => {
                    return None;
                },
            };
            let tail = match parse_side(&tail_text, true) {
                Some(groups) => groups,
                None => {
                    return None;
                },
            };
            if head.len() > 7 || tail.len() > 7 - head.len() {
                return None;
            }
            let mut groups: Vec<u16> = head;
            let ghost head_groups = groups@;
            let zeros = 8 - groups.len() - tail.len();
            let mut k: usize = 0;
            while k < zeros
                invariant
                    0 <= k <= zeros,
                    groups@ == head_groups + Seq::new(k as nat, |j: int| 0u16),
                decreases zeros - k,
            {
                groups.push(0);
                assert(groups@ =~= head_groups + Seq::new((k + 1) as nat, |j: int| 0u16));
                k += 1;
            }
            let ghost padded = groups@;
            let mut t: usize = 0;
            while t < tail.len()
                invariant
                    0 <= t <= tail.len(),
                    groups@ == padded + tail@.subrange(0, t as int),
                decreases tail.len() - t,
            {
                groups.push(tail[t]);
                assert(groups@ =~= padded + tail@.subrange(0, t + 1));
                t += 1;
            }
            assert(tail@.subrange(0, t as int) =~= tail@);
            Some(groups)
        },
    }
}

/// Reads the literal of an IPv4 or IPv6 address. No name is resolved:
/// everything that is not a literal is refused.
pub fn str_to_ip_addr(arg: &str) -> (r: Result<ScanTarget, ParseError>)
    ensures
        match target_of(arg@) {
            Some(target) => r == Ok::<ScanTarget, ParseError>(target),
            None => r == Err::<ScanTarget, ParseError>(ParseError::InvalidTarget),
        },
{
    let chars = chars_of(arg);
    let quad = split_at_char(&chars, '.');
    match parse_ipv4_pieces(&quad) {
        Some(o) => Ok(ScanTarget::V4(o[0], o[1], o[2], o[3])),
        None => match parse_ipv6(&chars) {
            Some(g) => Ok(ScanTarget::V6(g[0], g[1], g[2], g[3], g[4], g[5], g[6], g[7])),
            None => Err(ParseError::InvalidTarget),
        },
    }
}

/// An IPv4 literal names four octets and an IPv6 literal eight groups.
pub proof fn lemma_address_lengths(s: Seq<char>)
    ensures
        ipv4_of(s) matches Some(octets) ==> octets.len() == 4,
        ipv6_of(s) matches Some(groups) ==> groups.len() == 8,
{
}

/// The usual literal of an IPv4 address: its four octets in decimal, with a
/// dot between each two.
pub open spec fn dotted_quad(a: u8, b: u8, c: u8, d: u8) -> Seq<char> {
    decimal_text(a as nat) + seq!['.'] + decimal_text(b as nat) + seq!['.'] + decimal_text(
        c as nat,
    ) + seq!['.'] + decimal_text(d as nat)
}

/// The decimal text of an octet names that octet, and holds no dot.
pub proof fn lemma_octet_text(octet: u8)
    ensures
        ipv4_octet(decimal_text(octet as nat)) == Some(octet),
        forall|i: int|
            0 <= i < decimal_text(octet as nat).len() ==> #[trigger] decimal_text(octet as nat)[i]
                != '.',
{
    let t = decimal_text(octet as nat);
    lemma_decimal_text_value(octet as nat);
    lemma_decimal_text_shape(octet as nat);
    assert forall|i: int| 0 <= i < t.len() implies #[trigger] t[i] != '.' by {
        assert(is_decimal_digit(t[i]));
    }
}

/// Every IPv4 address is read back from its usual literal.
pub proof fn lemma_dotted_quad_reads_back(a: u8, b: u8, c: u8, d: u8)
    ensures
        target_of(dotted_quad(a, b, c, d)) == Some(ScanTarget::V4(a, b, c, d)),
{
    let ta = decimal_text(a as nat);
    let tb = decimal_text(b as nat);
    let tc = decimal_text(c as nat);
    let td = decimal_text(d as nat);
    lemma_octet_text(a);
    lemma_octet_text(b);
    lemma_octet_text(c);
    lemma_octet_text(d);
    lemma_split_without_separator(ta, '.');
    lemma_split_append(ta, tb, '.');
    lemma_split_append(ta + seq!['.'] + tb, tc, '.');
    lemma_split_append(ta + seq!['.'] + tb + seq!['.'] + tc, td, '.');
    let pieces = split(dotted_quad(a, b, c, d), '.');
    assert(pieces =~= seq![ta, tb, tc, td]);
    assert(pieces[0] == ta && pieces[1] == tb && pieces[2] == tc && pieces[3] == td);
    assert(ipv4_of_pieces(pieces)->0 =~= seq![a, b, c, d]);
}

/// The group that a piece names is the value of its digits: sixteen bits
/// hold it.
pub proof fn lemma_group_is_value(s: Seq<char>)
    ensures
        ipv6_group(s) matches Some(group) ==> group == hex_value(s),
{
    if s.len() <= 4 {
        lemma_hex_value_fits(s);
    }
}

/// The full literal of an IPv6 address: its eight groups in hexadecimal,
/// with a colon between each two.
pub open spec fn full_ipv6_literal(groups: Seq<u16>) -> Seq<char> {
    join(Seq::new(groups.len(), |i: int| hex_text(groups[i] as nat)), ':')
}

/// The hexadecimal text of a group names that group, and holds neither a
/// colon nor a dot.
pub proof fn lemma_group_text(group: u16)
    ensures
        ipv6_group(hex_text(group as nat)) == Some(group),
        hex_text(group as nat).len() > 0,
        free_of(hex_text(group as nat), ':'),
        free_of(hex_text(group as nat), '.'),
{
    let t = hex_text(group as nat);
    lemma_hex_text_value(group as nat);
    assert forall|i: int| 0 <= i < t.len() implies #[trigger] t[i] != ':' && t[i] != '.' by {
        assert(is_hex_digit(t[i]));
    }
}

/// Every IPv6 address is read back from its full literal.
pub proof fn lemma_full_ipv6_literal_reads_back(groups: Seq<u16>)
    requires
        groups.len() == 8,
    ensures
        target_of(full_ipv6_literal(groups)) == Some(
            ScanTarget::V6(
                groups[0],
                groups[1],
                groups[2],
                groups[3],
                groups[4],
                groups[5],
                groups[6],
                groups[7],
            ),
        ),
{
    let pieces = Seq::new(groups.len(), |i: int| hex_text(groups[i] as nat));
    let text = full_ipv6_literal(groups);
    assert forall|k: int| 0 <= k < pieces.len() implies {
        &&& (#[trigger] pieces[k]).len() > 0
        &&& free_of(pieces[k], ':')
        &&& free_of(pieces[k], '.')
        &&& ipv6_group(pieces[k]) == Some(groups[k])
    } by {
        lemma_group_text(groups[k]);
    }
    // The literal holds no dot, so it is no dotted quad.
    lemma_join_free_of(pieces, ':', '.');
    lemma_split_without_separator(text, '.');
    assert(ipv4_of(text) is None);
    // No two colons stand side by side in it.
    lemma_join_keeps_separators_apart(pieces, ':');
    assert forall|i: int| !first_double_colon_at(text, i) by {
        if double_colon_at(text, i) {
            assert(text[i] == ':' && text[i + 1] == ':');
        }
    }
    assert(first_double_colon(text) is None);
    // Its pieces are the texts of the groups.
    lemma_split_join(pieces, ':');
    assert(split(text, ':') == pieces);
    let front = pieces.drop_last();
    assert forall|k: int| 0 <= k < front.len() implies (#[trigger] ipv6_group(front[k])) is Some by {
        assert(front[k] == pieces[k]);
    }
    assert(ipv6_group(pieces.last()) == Some(groups[7]));
    assert(plain_groups(front)->0.push(groups[7]) =~= groups) by {
        assert forall|k: int| 0 <= k < 7 implies plain_groups(front)->0[k] == groups[k] by {
            assert(front[k] == pieces[k]);
        }
    }
    assert(groups_of_pieces(pieces, true) == Some(groups));
    assert(ipv6_of(text) == Some(groups));
}

/// Every target is read back from a literal: the dotted quad of an IPv4
/// address, the full literal of an IPv6 address.
pub proof fn lemma_every_target_has_a_literal(target: ScanTarget)
    ensures
        exists|text: Seq<char>| target_of(text) == Some(target),
{
    match target {
        ScanTarget::V4(a, b, c, d) => {
            lemma_dotted_quad_reads_back(a, b, c, d);
            assert(target_of(dotted_quad(a, b, c, d)) == Some(target));
        },
        ScanTarget::V6(a, b, c, d, e, f, g, h) => {
            let groups = seq![a, b, c, d, e, f, g, h];
            lemma_full_ipv6_literal_reads_back(groups);
            assert(target_of(full_ipv6_literal(groups)) == Some(target));
        },
    }
}

} // verus!
