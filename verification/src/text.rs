//! Characters, digit strings and separator-delimited pieces.

use vstd::prelude::*;

verus! {

/// Whether `c` is one of the ten decimal digits.
pub open spec fn is_decimal_digit(c: char) -> bool {
    '0' <= c && c <= '9'
}

/// The number a decimal digit stands for; 0 for any other character.
pub open spec fn decimal_digit_value(c: char) -> nat {
    if is_decimal_digit(c) {
        (c as u32 - '0' as u32) as nat
    } else {
        0
    }
}

/// Whether `s` is a non-empty run of decimal digits.
pub open spec fn is_decimal(s: Seq<char>) -> bool {
    s.len() > 0 && forall|i: int| 0 <= i < s.len() ==> is_decimal_digit(#[trigger] s[i])
}

/// The number that the digit string `s` denotes in base ten.
pub open spec fn decimal_value(s: Seq<char>) -> nat
    decreases s.len(),
{
    if s.len() == 0 {
        0
    } else {
        decimal_value(s.drop_last()) * 10 + decimal_digit_value(s.last())
    }
}

/// The number that `s` denotes, if `s` is a digit string whose value is at
/// most `max`.
pub open spec fn bounded_decimal(s: Seq<char>, max: nat) -> Option<nat> {
    if is_decimal(s) && decimal_value(s) <= max {
        Some(decimal_value(s))
    } else {
        None
    }
}

/// Whether `c` is a hexadecimal digit, in either case.
pub open spec fn is_hex_digit(c: char) -> bool {
    ('0' <= c && c <= '9') || ('a' <= c && c <= 'f') || ('A' <= c && c <= 'F')
}

/// The number a hexadecimal digit stands for; 0 for any other character.
pub open spec fn hex_digit_value(c: char) -> nat {
    if '0' <= c && c <= '9' {
        (c as u32 - '0' as u32) as nat
    } else if 'a' <= c && c <= 'f' {
        (c as u32 - 'a' as u32 + 10) as nat
    } else if 'A' <= c && c <= 'F' {
        (c as u32 - 'A' as u32 + 10) as nat
    } else {
        0
    }
}

/// Whether `s` is a non-empty run of hexadecimal digits.
pub open spec fn is_hex(s: Seq<char>) -> bool {
    s.len() > 0 && forall|i: int| 0 <= i < s.len() ==> is_hex_digit(#[trigger] s[i])
}

/// The number that the digit string `s` denotes in base sixteen.
pub open spec fn hex_value(s: Seq<char>) -> nat
    decreases s.len(),
{
    if s.len() == 0 {
        0
    } else {
        hex_value(s.drop_last()) * 16 + hex_digit_value(s.last())
    }
}

/// The pieces of `s` between occurrences of `sep`, read left to right: a
/// separator opens a new, empty piece; any other character extends the
/// last piece. A text without separator is one piece, the empty text too.
pub open spec fn split(s: Seq<char>, sep: char) -> Seq<Seq<char>>
    decreases s.len(),
{
    if s.len() == 0 {
        seq![Seq::<char>::empty()]
    } else {
        let before = split(s.drop_last(), sep);
        if s.last() == sep {
            before.push(Seq::<char>::empty())
        } else {
            before.drop_last().push(before.last().push(s.last()))
        }
    }
}

/// The pieces joined into one text, with `sep` between each two.
pub open spec fn join(pieces: Seq<Seq<char>>, sep: char) -> Seq<char>
    decreases pieces.len(),
{
    if pieces.len() == 0 {
        Seq::empty()
    } else if pieces.len() == 1 {
        pieces[0]
    } else {
        join(pieces.drop_last(), sep) + seq![sep] + pieces.last()
    }
}

/// Whether `s` holds no `sep`.
pub open spec fn free_of(s: Seq<char>, sep: char) -> bool {
    forall|i: int| 0 <= i < s.len() ==> #[trigger] s[i] != sep
}

/// The views of a vector of character vectors.
pub open spec fn views(pieces: Seq<Vec<char>>) -> Seq<Seq<char>> {
    pieces.map_values(|p: Vec<char>| p@)
}

/// The character that stands for the digit `d`.
pub open spec fn decimal_digit_char(d: nat) -> char
    recommends
        d < 10,
{
    ((d + 48) as u8) as char
}

/// The usual decimal text of `n`: no sign, no leading zero.
pub open spec fn decimal_text(n: nat) -> Seq<char>
    decreases n,
{
    if n < 10 {
        seq![decimal_digit_char(n)]
    } else {
        decimal_text(n / 10).push(decimal_digit_char(n % 10))
    }
}

/// The decimal text of a number is a digit string that denotes it.
pub proof fn lemma_decimal_text_value(n: nat)
    ensures
        is_decimal(decimal_text(n)),
        decimal_value(decimal_text(n)) == n,
    decreases n,
{
    let t = decimal_text(n);
    if n < 10 {
        assert(t.drop_last() =~= Seq::<char>::empty());
        assert(decimal_value(t.drop_last()) == 0);
        assert(t.last() == decimal_digit_char(n));
    } else {
        lemma_decimal_text_value(n / 10);
        assert(t.drop_last() =~= decimal_text(n / 10));
        assert(t.last() == decimal_digit_char(n % 10));
        assert forall|i: int| 0 <= i < t.len() implies is_decimal_digit(#[trigger] t[i]) by {
            if i < t.len() - 1 {
                assert(t[i] == decimal_text(n / 10)[i]);
            }
        }
    }
}

/// A longer digit string denotes no smaller a number than its prefix.
pub proof fn lemma_decimal_value_prefix(s: Seq<char>, k: int)
    requires
        0 <= k <= s.len(),
    ensures
        decimal_value(s.subrange(0, k)) <= decimal_value(s),
    decreases s.len(),
{
    if k == s.len() {
        assert(s.subrange(0, k) =~= s);
    } else {
        lemma_decimal_value_prefix(s.drop_last(), k);
        assert(s.drop_last().subrange(0, k) =~= s.subrange(0, k));
    }
}

/// The character that stands for the hexadecimal digit `d`, in lower case.
pub open spec fn hex_digit_char(d: nat) -> char
    recommends
        d < 16,
{
    if d < 10 {
        ((d + 48) as u8) as char
    } else {
        ((d + 87) as u8) as char
    }
}

/// The usual hexadecimal text of `n`: lower case, no leading zero.
pub open spec fn hex_text(n: nat) -> Seq<char>
    decreases n,
{
    if n < 16 {
        seq![hex_digit_char(n)]
    } else {
        hex_text(n / 16).push(hex_digit_char(n % 16))
    }
}

/// The hexadecimal text of a number is a digit string that denotes it, of
/// at most four digits if the number has sixteen bits.
pub proof fn lemma_hex_text_value(n: nat)
    ensures
        is_hex(hex_text(n)),
        hex_value(hex_text(n)) == n,
        n < 16 ==> hex_text(n).len() == 1,
        16 <= n < 256 ==> hex_text(n).len() == 2,
        256 <= n < 4096 ==> hex_text(n).len() == 3,
        4096 <= n < 65536 ==> hex_text(n).len() == 4,
    decreases n,
{
    let t = hex_text(n);
    if n < 16 {
        assert(t.drop_last() =~= Seq::<char>::empty());
        assert(hex_value(t.drop_last()) == 0);
        assert(t.last() == hex_digit_char(n));
    } else {
        lemma_hex_text_value(n / 16);
        assert(t.drop_last() =~= hex_text(n / 16));
        assert(t.last() == hex_digit_char(n % 16));
        assert forall|i: int| 0 <= i < t.len() implies is_hex_digit(#[trigger] t[i]) by {
            if i < t.len() - 1 {
                assert(t[i] == hex_text(n / 16)[i]);
            }
        }
    }
}

/// A run of at most four hexadecimal digits denotes a number of sixteen
/// bits.
pub proof fn lemma_hex_value_fits(s: Seq<char>)
    requires
        s.len() <= 4,
    ensures
        hex_value(s) <= 0xFFFF,
{
    reveal_with_fuel(hex_value, 5);
    if s.len() >= 1 {
        let a = s.drop_last();
        if a.len() >= 1 {
            let b = a.drop_last();
            if b.len() >= 1 {
                let c = b.drop_last();
                if c.len() >= 1 {
                    assert(c.drop_last().len() == 0);
                }
            }
        }
    }
}

/// The pieces of a text are at least one, none of them holds the
/// separator, and joined again they are the text.
pub proof fn lemma_join_split(s: Seq<char>, sep: char)
    ensures
        split(s, sep).len() >= 1,
        forall|k: int| 0 <= k < split(s, sep).len() ==> free_of(#[trigger] split(s, sep)[k], sep),
        join(split(s, sep), sep) == s,
    decreases s.len(),
{
    let pieces = split(s, sep);
    if s.len() == 0 {
        assert(join(pieces, sep) =~= s);
    } else {
        let before = split(s.drop_last(), sep);
        lemma_join_split(s.drop_last(), sep);
        assert(s.drop_last().push(s.last()) =~= s);
        if s.last() == sep {
            assert(pieces.drop_last() =~= before);
            assert(join(pieces, sep) =~= s);
        } else {
            let grown = before.last().push(s.last());
            assert(pieces.last() == grown);
            assert(free_of(grown, sep));
            if before.len() == 1 {
                assert(join(pieces, sep) =~= s);
            } else {
                assert(pieces.drop_last() =~= before.drop_last());
                assert(join(pieces, sep) =~= join(before, sep).push(s.last()));
            }
        }
    }
}

/// A text that holds no separator is a single piece.
pub proof fn lemma_split_without_separator(s: Seq<char>, sep: char)
    requires
        free_of(s, sep),
    ensures
        split(s, sep) == seq![s],
    decreases s.len(),
{
    if s.len() == 0 {
        assert(s =~= Seq::<char>::empty());
    } else {
        lemma_split_without_separator(s.drop_last(), sep);
        assert(s.drop_last().push(s.last()) =~= s);
        assert(split(s, sep) =~= seq![s]);
    }
}

/// A text without separator that follows a separator is the last piece,
/// after the pieces of what stands before that separator.
pub proof fn lemma_split_append(front: Seq<char>, last: Seq<char>, sep: char)
    requires
        free_of(last, sep),
    ensures
        split(front + seq![sep] + last, sep) == split(front, sep).push(last),
    decreases last.len(),
{
    let s = front + seq![sep] + last;
    if last.len() == 0 {
        assert(s.drop_last() =~= front);
        assert(s.last() == sep);
        assert(last =~= Seq::<char>::empty());
    } else {
        lemma_split_append(front, last.drop_last(), sep);
        assert(s.drop_last() =~= front + seq![sep] + last.drop_last());
        assert(last.drop_last().push(last.last()) =~= last);
        assert(s.last() == last.last());
        let before = split(s.drop_last(), sep);
        assert(before.drop_last() =~= split(front, sep));
        assert(split(s, sep) =~= split(front, sep).push(last));
    }
}

/// Two texts without separator, joined by one, split into exactly those two.
pub proof fn lemma_split_pair(a: Seq<char>, b: Seq<char>, sep: char)
    requires
        free_of(a, sep),
        free_of(b, sep),
    ensures
        split(a + seq![sep] + b, sep) == seq![a, b],
{
    lemma_split_without_separator(a, sep);
    lemma_split_append(a, b, sep);
    assert(seq![a].push(b) =~= seq![a, b]);
}

/// Pieces that hold no separator are the pieces of their join: `split`
/// undoes `join`.
pub proof fn lemma_split_join(pieces: Seq<Seq<char>>, sep: char)
    requires
        pieces.len() >= 1,
        forall|k: int| 0 <= k < pieces.len() ==> free_of(#[trigger] pieces[k], sep),
    ensures
        split(join(pieces, sep), sep) == pieces,
    decreases pieces.len(),
{
    if pieces.len() == 1 {
        assert(free_of(pieces[0], sep));
        lemma_split_without_separator(pieces[0], sep);
        assert(seq![pieces[0]] =~= pieces);
    } else {
        let front = pieces.drop_last();
        assert forall|k: int| 0 <= k < front.len() implies free_of(#[trigger] front[k], sep) by {
            assert(front[k] == pieces[k]);
        }
        lemma_split_join(front, sep);
        assert(free_of(pieces.last(), sep));
        lemma_split_append(join(front, sep), pieces.last(), sep);
        assert(front.push(pieces.last()) =~= pieces);
    }
}

/// Pieces that are not empty and hold no separator join into a text that
/// neither starts nor ends with a separator, and in which no two
/// separators stand side by side.
pub proof fn lemma_join_keeps_separators_apart(pieces: Seq<Seq<char>>, sep: char)
    requires
        pieces.len() >= 1,
        forall|k: int|
            0 <= k < pieces.len() ==> (#[trigger] pieces[k]).len() > 0 && free_of(pieces[k], sep),
    ensures
        join(pieces, sep).len() > 0,
        join(pieces, sep)[0] != sep,
        join(pieces, sep).last() != sep,
        forall|i: int|
            0 <= i && i + 1 < join(pieces, sep).len() ==> !(#[trigger] join(pieces, sep)[i] == sep
                && join(pieces, sep)[i + 1] == sep),
    decreases pieces.len(),
{
    let t = join(pieces, sep);
    assert(pieces[0].len() > 0 && free_of(pieces[0], sep));
    if pieces.len() > 1 {
        let front = pieces.drop_last();
        let last = pieces.last();
        assert forall|k: int| 0 <= k < front.len() implies (#[trigger] front[k]).len() > 0
            && free_of(front[k], sep) by {
            assert(front[k] == pieces[k]);
        }
        lemma_join_keeps_separators_apart(front, sep);
        let head = join(front, sep);
        assert(last.len() > 0 && free_of(last, sep));
        assert(t == head + seq![sep] + last);
        assert forall|i: int| 0 <= i && i + 1 < t.len() implies !(#[trigger] t[i] == sep && t[i + 1]
            == sep) by {
            if i + 1 < head.len() {
                assert(t[i] == head[i] && t[i + 1] == head[i + 1]);
            } else if i + 1 == head.len() {
                assert(t[i] == head.last());
            } else if i == head.len() {
                assert(t[i + 1] == last[0]);
            } else {
                assert(t[i] == last[i - head.len() - 1]);
            }
        }
        assert(t[0] == head[0]);
        assert(t.last() == last.last());
    }
}

/// Pieces that hold no `c` join into a text that holds no `c`, if the
/// separator is not `c` either.
pub proof fn lemma_join_free_of(pieces: Seq<Seq<char>>, sep: char, c: char)
    requires
        sep != c,
        forall|k: int| 0 <= k < pieces.len() ==> free_of(#[trigger] pieces[k], c),
    ensures
        free_of(join(pieces, sep), c),
    decreases pieces.len(),
{
    if pieces.len() == 1 {
        assert(free_of(pieces[0], c));
    } else if pieces.len() > 1 {
        let front = pieces.drop_last();
        assert forall|k: int| 0 <= k < front.len() implies free_of(#[trigger] front[k], c) by {
            assert(front[k] == pieces[k]);
        }
        lemma_join_free_of(front, sep, c);
        assert(free_of(pieces.last(), c));
    }
}

/// The decimal text of a number is as long as the number has digits, and
/// starts with a zero only if the number is zero.
pub proof fn lemma_decimal_text_shape(n: nat)
    ensures
        decimal_text(n).len() >= 1,
        n < 10 ==> decimal_text(n).len() == 1,
        10 <= n < 100 ==> decimal_text(n).len() == 2,
        100 <= n < 1000 ==> decimal_text(n).len() == 3,
        n > 0 ==> decimal_text(n)[0] != '0',
    decreases n,
{
    if n >= 10 {
        lemma_decimal_text_shape(n / 10);
        assert(decimal_text(n)[0] == decimal_text(n / 10)[0]);
    }
}

/// The characters of `s`, in order.
pub fn chars_of(s: &str) -> (v: Vec<char>)
    ensures
        v@ == s@,
{
    let mut v: Vec<char> = Vec::new();
    for c in it: s.chars()
        invariant
            v@ == it.seq().subrange(0, it.index() as int),
            it.seq() == s@,
    {
        v.push(c);
    }
    v
}

/// Cuts `s` at every `sep`.
pub fn split_at_char(s: &Vec<char>, sep: char) -> (pieces: Vec<Vec<char>>)
    ensures
        views(pieces@) == split(s@, sep),
{
    let mut pieces: Vec<Vec<char>> = Vec::new();
    let mut current: Vec<char> = Vec::new();
    let mut i: usize = 0;
    assert(s@.subrange(0, 0) =~= Seq::<char>::empty());
    assert(views(pieces@).push(current@) =~= split(s@.subrange(0, 0), sep));
    while i < s.len()
        invariant
            0 <= i <= s.len(),
            views(pieces@).push(current@) == split(s@.subrange(0, i as int), sep),
        decreases s.len() - i,
    {
        let c = s[i];
        proof {
            let next = s@.subrange(0, i + 1);
            assert(next.drop_last() =~= s@.subrange(0, i as int));
            assert(next.last() == c);
        }
        if c == sep {
            let ghost before = views(pieces@).push(current@);
            pieces.push(current);
            current = Vec::new();
            assert(views(pieces@) =~= before);
        } else {
            let ghost before = views(pieces@).push(current@);
            current.push(c);
            assert(views(pieces@).push(current@) =~= before.drop_last().push(
                before.last().push(c),
            ));
        }
        i += 1;
    }
    assert(s@.subrange(0, i as int) =~= s@);
    pieces.push(current);
    pieces
}

/// Reads `s` as a decimal number of at most `max`.
pub fn parse_decimal(s: &Vec<char>, max: u32) -> (r: Option<u32>)
    ensures
        match bounded_decimal(s@, max as nat) {
            Some(n) => r == Some(n as u32),
            None => r is None,
        },
{
    if s.len() == 0 {
        return None;
    }
    let mut acc: u64 = 0;
    let mut i: usize = 0;
    assert(s@.subrange(0, 0) =~= Seq::<char>::empty());
    while i < s.len()
        invariant
            0 <= i <= s.len(),
            acc <= max,
            acc == decimal_value(s@.subrange(0, i as int)),
            forall|j: int| 0 <= j < i ==> is_decimal_digit(#[trigger] s@[j]),
        decreases s.len() - i,
    {
        let c = s[i];
        if !(c >= '0' && c <= '9') {
            return None;
        }
        proof {
            let next = s@.subrange(0, i + 1);
            assert(next.drop_last() =~= s@.subrange(0, i as int));
            assert(next.last() == c);
        }
        acc = acc * 10 + (c as u64 - '0' as u64);
        if acc > max as u64 {
            proof {
                lemma_decimal_value_prefix(s@, i + 1);
            }
            return None;
        }
        i += 1;
    }
    assert(s@.subrange(0, i as int) =~= s@);
    Some(acc as u32)
}

/// The number a hexadecimal digit stands for.
pub fn hex_digit(c: char) -> (r: Option<u32>)
    ensures
        match r {
            Some(d) => is_hex_digit(c) && d == hex_digit_value(c) && d < 16,
            None => !is_hex_digit(c),
        },
{
    if c >= '0' && c <= '9' {
        Some(c as u32 - '0' as u32)
    } else if c >= 'a' && c <= 'f' {
        Some(c as u32 - 'a' as u32 + 10)
    } else if c >= 'A' && c <= 'F' {
        Some(c as u32 - 'A' as u32 + 10)
    } else {
        None
    }
}

/// Reads `s` as a hexadecimal number of one to four digits.
pub fn parse_hex_group(s: &Vec<char>) -> (r: Option<u16>)
    ensures
        match r {
            Some(n) => is_hex(s@) && s@.len() <= 4 && n == hex_value(s@),
            None => !(is_hex(s@) && s@.len() <= 4),
        },
{
    if s.len() == 0 || s.len() > 4 {
        return None;
    }
    let mut acc: u32 = 0;
    let mut i: usize = 0;
    assert(s@.subrange(0, 0) =~= Seq::<char>::empty());
    while i < s.len()
        invariant
            0 <= i <= s.len() <= 4,
            acc == hex_value(s@.subrange(0, i as int)),
            i == 0 ==> acc == 0,
            i == 1 ==> acc < 16,
            i == 2 ==> acc < 256,
            i == 3 ==> acc < 4096,
            i == 4 ==> acc < 65536,
            forall|j: int| 0 <= j < i ==> is_hex_digit(#[trigger] s@[j]),
        decreases s.len() - i,
    {
        let c = s[i];
        proof {
            let next = s@.subrange(0, i + 1);
            assert(next.drop_last() =~= s@.subrange(0, i as int));
            assert(next.last() == c);
        }
        match hex_digit(c) {
            Some(d) => {
                acc = acc * 16 + d;
            },
            None => {
                return None;
            },
        }
        i += 1;
    }
    assert(s@.subrange(0, i as int) =~= s@);
    Some(acc as u16)
}

/// The characters of `s` from position `from` up to, not including,
/// position `to`.
pub(crate) fn slice_of(s: &Vec<char>, from: usize, to: usize) -> (r: Vec<char>)
    requires
        from <= to <= s.len(),
    ensures
        r@ == s@.subrange(from as int, to as int),
{
    let mut r: Vec<char> = Vec::new();
    let mut i: usize = from;
    while i < to
        invariant
            from <= i <= to <= s.len(),
            r@ == s@.subrange(from as int, i as int),
        decreases to - i,
    {
        r.push(s[i]);
        assert(r@ =~= s@.subrange(from as int, i + 1));
        i += 1;
    }
    r
}

} // verus!
