//! Network addresses: the model of an IPv4 or IPv6 address, parsing of
//! textual address literals, and formatting back to text.

use vstd::prelude::*;
use vstd::string::StrSliceExecFns;

verus! {

/// An immutable network address, IPv4 or IPv6.
///
/// An IPv4 address is held as its four octets; an IPv6 address as its
/// eight 16-bit groups, most significant first.
#[derive(Clone, Copy, Debug, PartialEq, Eq, Structural)]
pub enum IpAddress {
    V4(u8, u8, u8, u8),
    V6(u16, u16, u16, u16, u16, u16, u16, u16),
}

/// Is `c` an ASCII decimal digit?
pub open spec fn is_dec_digit(c: char) -> bool {
    ('0' as u32) <= (c as u32) && (c as u32) <= ('9' as u32)
}

/// Numeric value of a decimal digit.
pub open spec fn dec_digit_val(c: char) -> int
    recommends
        is_dec_digit(c),
{
    (c as u32) - ('0' as u32)
}

/// Value of a string of decimal digits, most significant first.
pub open spec fn dec_val(s: Seq<char>) -> int
    decreases s.len(),
{
    if s.len() == 0 {
        0
    } else {
        dec_val(s.drop_last()) * 10 + dec_digit_val(s.last())
    }
}

/// A decimal octet as IPv4 text allows it: one to three digits, no leading
/// zero, value at most 255.
pub open spec fn is_dec_octet(s: Seq<char>) -> bool {
    &&& 1 <= s.len() <= 3
    &&& (forall|i: int| 0 <= i < s.len() ==> is_dec_digit(#[trigger] s[i]))
    &&& (s.len() > 1 ==> s[0] != '0')
    &&& dec_val(s) <= 255
}

/// Is `c` an ASCII hexadecimal digit?
pub open spec fn is_hex_digit(c: char) -> bool {
    ||| is_dec_digit(c)
    ||| ('a' as u32) <= (c as u32) && (c as u32) <= ('f' as u32)
    ||| ('A' as u32) <= (c as u32) && (c as u32) <= ('F' as u32)
}

/// Numeric value of a hexadecimal digit.
pub open spec fn hex_digit_val(c: char) -> int
    recommends
        is_hex_digit(c),
{
    if is_dec_digit(c) {
        (c as u32) - ('0' as u32)
    } else if ('a' as u32) <= (c as u32) && (c as u32) <= ('f' as u32) {
        (c as u32) - ('a' as u32) + 10
    } else {
        (c as u32) - ('A' as u32) + 10
    }
}

/// Value of a string of hexadecimal digits, most significant first.
pub open spec fn hex_val(s: Seq<char>) -> int
    decreases s.len(),
{
    if s.len() == 0 {
        0
    } else {
        hex_val(s.drop_last()) * 16 + hex_digit_val(s.last())
    }
}

/// A group of an IPv6 address: one to four hexadecimal digits.
pub open spec fn is_hex_group(s: Seq<char>) -> bool {
    &&& 1 <= s.len() <= 4
    &&& (forall|i: int| 0 <= i < s.len() ==> is_hex_digit(#[trigger] s[i]))
}

/// Splits `s` at every occurrence of `sep`.  Splitting the empty string
/// gives one empty part; `n` separators give `n + 1` parts.
pub open spec fn split_at_sep(s: Seq<char>, sep: char) -> Seq<Seq<char>>
    decreases s.len(),
{
    if s.len() == 0 {
        seq![s]
    } else if s[0] == sep {
        seq![Seq::<char>::empty()] + split_at_sep(s.drop_first(), sep)
    } else {
        let rest = split_at_sep(s.drop_first(), sep);
        seq![seq![s[0]] + rest[0]] + rest.drop_first()
    }
}

/// Index of the first occurrence of two adjacent colons in `s`, if any.
pub open spec fn first_double_colon(s: Seq<char>) -> Option<int>
    decreases s.len(),
{
    if s.len() < 2 {
        None
    } else if s[0] == ':' && s[1] == ':' {
        Some(0int)
    } else {
        match first_double_colon(s.drop_first()) {
            Some(i) => Some(i + 1),
            None => None,
        }
    }
}

/// The address denoted by `s` read as an IPv4 literal: four decimal
/// octets separated by dots, or nothing.
pub open spec fn ipv4_of(s: Seq<char>) -> Option<IpAddress> {
    let parts = split_at_sep(s, '.');
    if parts.len() == 4 && (forall|i: int| 0 <= i < 4 ==> is_dec_octet(#[trigger] parts[i])) {
        Some(
            IpAddress::V4(
                dec_val(parts[0]) as u8,
                dec_val(parts[1]) as u8,
                dec_val(parts[2]) as u8,
                dec_val(parts[3]) as u8,
            ),
        )
    } else {
        None
    }
}

/// The 16-bit group values denoted by a sequence of colon-separated IPv6
/// parts, or nothing if some part is malformed.  When `v4_tail` is set the
/// final part may instead be an IPv4 literal, contributing two groups.
pub open spec fn group_vals(parts: Seq<Seq<char>>, v4_tail: bool) -> Option<Seq<u16>>
    decreases parts.len(),
{
    if parts.len() == 0 {
        Some(Seq::<u16>::empty())
    } else if parts.len() == 1 {
        let g = parts[0];
        if v4_tail && g.contains('.') {
            match ipv4_of(g) {
                Some(IpAddress::V4(a, b, c, d)) => Some(
                    seq![
                        ((a as int) * 256 + (b as int)) as u16,
                        ((c as int) * 256 + (d as int)) as u16,
                    ],
                ),
                _ => None,
            }
        } else if is_hex_group(g) {
            Some(seq![hex_val(g) as u16])
        } else {
            None
        }
    } else if is_hex_group(parts[0]) {
        match group_vals(parts.drop_first(), v4_tail) {
            Some(rest) => Some(seq![hex_val(parts[0]) as u16] + rest),
            None => None,
        }
    } else {
        None
    }
}

/// An IPv6 address from its eight group values.
pub open spec fn v6_from(g: Seq<u16>) -> IpAddress
    recommends
        g.len() == 8,
{
    IpAddress::V6(g[0], g[1], g[2], g[3], g[4], g[5], g[6], g[7])
}

/// A sequence of `n` zero groups.
pub open spec fn zero_groups(n: int) -> Seq<u16> {
    Seq::new(n as nat, |i: int| 0u16)
}

/// The address denoted by `s` read as an IPv6 literal, or nothing.
///
/// Without a `::`, the text must hold exactly eight groups (an embedded
/// IPv4 tail counting as two).  A single `::` stands for one or more zero
/// groups, so the remaining groups must number at most seven.
pub open spec fn ipv6_of(s: Seq<char>) -> Option<IpAddress> {
    match first_double_colon(s) {
        None => {
            match group_vals(split_at_sep(s, ':'), true) {
                Some(vals) => if vals.len() == 8 {
                    Some(v6_from(vals))
                } else {
                    None
                },
                None => None,
            }
        },
        Some(i) => {
            let head = s.take(i);
            let tail = s.skip(i + 2);
            let head_parts = if head.len() == 0 {
                Seq::<Seq<char>>::empty()
            } else {
                split_at_sep(head, ':')
            };
            let tail_parts = if tail.len() == 0 {
                Seq::<Seq<char>>::empty()
            } else {
                split_at_sep(tail, ':')
            };
            match (group_vals(head_parts, false), group_vals(tail_parts, true)) {
                (Some(hv), Some(tv)) => if hv.len() + tv.len() <= 7 {
                    Some(v6_from(hv + zero_groups(8 - hv.len() - tv.len()) + tv))
                } else {
                    None
                },
                _ => None,
            }
        },
    }
}

/// The address denoted by `s`: an IPv4 literal, else an IPv6 literal,
/// else nothing.
pub open spec fn ip_of(s: Seq<char>) -> Option<IpAddress> {
    match ipv4_of(s) {
        Some(a) => Some(a),
        None => ipv6_of(s),
    }
}

proof fn lemma_dec_val_bounds(s: Seq<char>)
    requires
        forall|i: int| 0 <= i < s.len() ==> is_dec_digit(#[trigger] s[i]),
    ensures
        0 <= dec_val(s),
        s.len() <= 3 ==> dec_val(s) < 1000,
    decreases s.len(),
{
    if s.len() > 0 {
        assert(s.drop_last() =~= s.subrange(0, s.len() - 1));
        lemma_dec_val_bounds(s.drop_last());
        if s.len() <= 3 {
            assert(dec_val(s.drop_last()) < 100) by {
                lemma_dec_val_small(s.drop_last());
            }
        }
    }
}

proof fn lemma_dec_val_small(s: Seq<char>)
    requires
        forall|i: int| 0 <= i < s.len() ==> is_dec_digit(#[trigger] s[i]),
    ensures
        s.len() <= 2 ==> dec_val(s) < 100,
        s.len() <= 1 ==> dec_val(s) < 10,
    decreases s.len(),
{
    if s.len() > 0 {
        lemma_dec_val_small(s.drop_last());
    }
}

proof fn lemma_hex_val_bounds(s: Seq<char>)
    requires
        forall|i: int| 0 <= i < s.len() ==> is_hex_digit(#[trigger] s[i]),
    ensures
        0 <= hex_val(s),
        s.len() <= 4 ==> hex_val(s) < 0x10000,
        s.len() <= 3 ==> hex_val(s) < 0x1000,
        s.len() <= 2 ==> hex_val(s) < 0x100,
        s.len() <= 1 ==> hex_val(s) < 0x10,
    decreases s.len(),
{
    if s.len() > 0 {
        lemma_hex_val_bounds(s.drop_last());
    }
}

proof fn lemma_split_len(s: Seq<char>, sep: char)
    ensures
        split_at_sep(s, sep).len() >= 1,
    decreases s.len(),
{
    if s.len() > 0 {
        lemma_split_len(s.drop_first(), sep);
    }
}

/// The texts of a sequence of index ranges into `v`.
spec fn parts_views(v: Seq<char>, parts: Seq<(usize, usize)>) -> Seq<Seq<char>> {
    parts.map(|k: int, p: (usize, usize)| v.subrange(p.0 as int, p.1 as int))
}

/// Splits `v` at every occurrence of `sep`, returning the index range of
/// each part.
fn split_indices(v: &Vec<char>, sep: char) -> (parts: Vec<(usize, usize)>)
    ensures
        parts@.len() == split_at_sep(v@, sep).len(),
        forall|k: int|
            0 <= k < parts@.len() ==> (#[trigger] parts@[k]).0 <= parts@[k].1 <= v@.len()
                && v@.subrange(parts@[k].0 as int, parts@[k].1 as int) == split_at_sep(v@, sep)[k],
{
    let mut parts: Vec<(usize, usize)> = Vec::new();
    let mut cs: usize = 0;
    let mut i: usize = 0;
    proof {
        lemma_split_len(v@, sep);
        assert(v@.skip(0) =~= v@);
        assert(split_at_sep(v@, sep) =~~= parts_views(v@, parts@) + seq![
            v@.subrange(0, 0) + split_at_sep(v@.skip(0), sep)[0],
        ] + split_at_sep(v@.skip(0), sep).drop_first());
    }
    while i < v.len()
        invariant
            cs <= i <= v@.len(),
            forall|k: int|
                0 <= k < parts@.len() ==> (#[trigger] parts@[k]).0 <= parts@[k].1 <= v@.len(),
            split_at_sep(v@, sep) == parts_views(v@, parts@) + seq![
                v@.subrange(cs as int, i as int) + split_at_sep(v@.skip(i as int), sep)[0],
            ] + split_at_sep(v@.skip(i as int), sep).drop_first(),
        decreases v@.len() - i,
    {
        proof {
            assert(v@.skip(i as int).len() > 0);
            assert(v@.skip(i as int)[0] == v@[i as int]);
            assert(v@.skip(i as int).drop_first() =~= v@.skip(i as int + 1));
            lemma_split_len(v@.skip(i as int + 1), sep);
        }
        if v[i] == sep {
            let ghost old_parts = parts@;
            parts.push((cs, i));
            proof {
                let rest = split_at_sep(v@.skip(i as int + 1), sep);
                assert(split_at_sep(v@.skip(i as int), sep) == seq![Seq::<char>::empty()] + rest);
                assert((seq![Seq::<char>::empty()] + rest)[0] =~= Seq::<char>::empty());
                assert((seq![Seq::<char>::empty()] + rest).drop_first() =~= rest);
                assert(parts_views(v@, parts@) =~~= parts_views(v@, old_parts) + seq![
                    v@.subrange(cs as int, i as int),
                ]);
                assert(rest =~~= seq![v@.subrange(i as int + 1, i as int + 1) + rest[0]]
                    + rest.drop_first());
                assert(split_at_sep(v@, sep) =~~= parts_views(v@, parts@) + seq![
                    v@.subrange(i as int + 1, i as int + 1) + rest[0],
                ] + rest.drop_first());
            }
            cs = i + 1;
        } else {
            proof {
                let rest = split_at_sep(v@.skip(i as int + 1), sep);
                assert(split_at_sep(v@.skip(i as int), sep) == seq![
                    seq![v@[i as int]] + rest[0],
                ] + rest.drop_first());
                assert((seq![seq![v@[i as int]] + rest[0]] + rest.drop_first())[0] == seq![
                    v@[i as int],
                ] + rest[0]);
                assert((seq![seq![v@[i as int]] + rest[0]] + rest.drop_first()).drop_first()
                    =~= rest.drop_first());
                assert(v@.subrange(cs as int, i as int) + (seq![v@[i as int]] + rest[0])
                    =~= v@.subrange(cs as int, i as int + 1) + rest[0]);
                assert(split_at_sep(v@, sep) =~~= parts_views(v@, parts@) + seq![
                    v@.subrange(cs as int, i as int + 1) + rest[0],
                ] + rest.drop_first());
            }
        }
        i = i + 1;
    }
    let ghost old_parts = parts@;
    parts.push((cs, i));
    proof {
        assert(v@.skip(i as int) =~= Seq::<char>::empty());
        assert(split_at_sep(v@.skip(i as int), sep) =~= seq![Seq::<char>::empty()]);
        assert(parts_views(v@, parts@) =~~= parts_views(v@, old_parts) + seq![
            v@.subrange(cs as int, i as int),
        ]);
        assert(split_at_sep(v@, sep) =~~= parts_views(v@, parts@));
        assert forall|k: int| 0 <= k < parts@.len() implies (#[trigger] parts@[k]).0
            <= parts@[k].1 <= v@.len() && v@.subrange(parts@[k].0 as int, parts@[k].1 as int)
            == split_at_sep(v@, sep)[k] by {
            assert(parts_views(v@, parts@)[k] == v@.subrange(
                parts@[k].0 as int,
                parts@[k].1 as int,
            ));
        }
    }
    parts
}

/// Copies the range `[a, b)` of `v` into a fresh vector.
fn subvec(v: &Vec<char>, a: usize, b: usize) -> (r: Vec<char>)
    requires
        a <= b <= v@.len(),
    ensures
        r@ == v@.subrange(a as int, b as int),
{
    let mut r: Vec<char> = Vec::new();
    let mut i: usize = a;
    while i < b
        invariant
            a <= i <= b <= v@.len(),
            r@ =~= v@.subrange(a as int, i as int),
        decreases b - i,
    {
        r.push(v[i]);
        proof {
            assert(r@ =~= v@.subrange(a as int, i as int + 1));
        }
        i = i + 1;
    }
    proof {
        assert(r@ =~= v@.subrange(a as int, b as int));
    }
    r
}

/// Reads the range `[a, b)` of `v` as a decimal octet.
fn parse_dec_octet(v: &Vec<char>, a: usize, b: usize) -> (r: Option<u8>)
    requires
        a <= b <= v@.len(),
    ensures
        ({
            let s = v@.subrange(a as int, b as int);
            match r {
                Some(x) => is_dec_octet(s) && x == dec_val(s),
                None => !is_dec_octet(s),
            }
        }),
{
    let ghost s = v@.subrange(a as int, b as int);
    let n = b - a;
    if n < 1 || n > 3 {
        return None;
    }
    if n > 1 && v[a] == '0' {
        assert(s[0] == '0');
        return None;
    }
    let mut val: u32 = 0;
    let mut i: usize = a;
    while i < b
        invariant
            a <= i <= b <= v@.len(),
            b - a <= 3,
            s == v@.subrange(a as int, b as int),
            forall|j: int| 0 <= j < i - a ==> is_dec_digit(#[trigger] s[j]),
            val == dec_val(v@.subrange(a as int, i as int)),
            val < 1000,
        decreases b - i,
    {
        let u = v[i] as u32;
        if u < 48 || u > 57 {
            assert(!is_dec_digit(s[i - a]));
            return None;
        }
        proof {
            let pre = v@.subrange(a as int, i as int);
            let ext = v@.subrange(a as int, i as int + 1);
            assert(ext.drop_last() =~= pre);
            assert(ext.last() == v@[i as int]);
            assert(forall|j: int|
                0 <= j < ext.len() ==> is_dec_digit(#[trigger] ext[j]));
            lemma_dec_val_bounds(ext);
        }
        val = val * 10 + (u - 48);
        i = i + 1;
    }
    assert(v@.subrange(a as int, i as int) == s);
    if val > 255 {
        return None;
    }
    Some(val as u8)
}

/// Reads the range `[a, b)` of `v` as a hexadecimal IPv6 group.
fn parse_hex_group(v: &Vec<char>, a: usize, b: usize) -> (r: Option<u16>)
    requires
        a <= b <= v@.len(),
    ensures
        ({
            let s = v@.subrange(a as int, b as int);
            match r {
                Some(x) => is_hex_group(s) && x == hex_val(s),
                None => !is_hex_group(s),
            }
        }),
{
    let ghost s = v@.subrange(a as int, b as int);
    let n = b - a;
    if n < 1 || n > 4 {
        return None;
    }
    let mut val: u32 = 0;
    let mut i: usize = a;
    while i < b
        invariant
            a <= i <= b <= v@.len(),
            b - a <= 4,
            s == v@.subrange(a as int, b as int),
            forall|j: int| 0 <= j < i - a ==> is_hex_digit(#[trigger] s[j]),
            val == hex_val(v@.subrange(a as int, i as int)),
            val < 0x10000,
        decreases b - i,
    {
        let u = v[i] as u32;
        let d: u32 = if 48 <= u && u <= 57 {
            u - 48
        } else if 97 <= u && u <= 102 {
            u - 97 + 10
        } else if 65 <= u && u <= 70 {
            u - 65 + 10
        } else {
            assert(!is_hex_digit(s[i - a]));
            return None;
        };
        proof {
            let pre = v@.subrange(a as int, i as int);
            let ext = v@.subrange(a as int, i as int + 1);
            assert(ext.drop_last() =~= pre);
            assert(ext.last() == v@[i as int]);
            assert(is_hex_digit(v@[i as int]));
            assert(d == hex_digit_val(v@[i as int]));
            assert(forall|j: int|
                0 <= j < ext.len() ==> is_hex_digit(#[trigger] ext[j]));
            lemma_hex_val_bounds(ext);
        }
        val = val * 16 + d;
        i = i + 1;
    }
    assert(v@.subrange(a as int, i as int) == s);
    Some(val as u16)
}

/// Does the range `[a, b)` of `v` contain the character `c`?
fn range_contains(v: &Vec<char>, a: usize, b: usize, c: char) -> (r: bool)
    requires
        a <= b <= v@.len(),
    ensures
        r == v@.subrange(a as int, b as int).contains(c),
{
    let ghost s = v@.subrange(a as int, b as int);
    let mut i: usize = a;
    while i < b
        invariant
            a <= i <= b <= v@.len(),
            s == v@.subrange(a as int, b as int),
            forall|j: int| 0 <= j < i - a ==> s[j] != c,
        decreases b - i,
    {
        if v[i] == c {
            assert(s[i - a] == c);
            return true;
        }
        i = i + 1;
    }
    assert(!s.contains(c));
    false
}

/// Reads the whole of `v` as an IPv4 literal.
fn parse_ipv4_vec(v: &Vec<char>) -> (r: Option<IpAddress>)
    ensures
        r == ipv4_of(v@),
{
    let parts = split_indices(v, '.');
    let ghost sparts = split_at_sep(v@, '.');
    if parts.len() != 4 {
        return None;
    }
    let mut octets: Vec<u8> = Vec::new();
    let mut k: usize = 0;
    while k < 4
        invariant
            parts@.len() == sparts.len() == 4,
            sparts == split_at_sep(v@, '.'),
            forall|j: int|
                0 <= j < parts@.len() ==> (#[trigger] parts@[j]).0 <= parts@[j].1 <= v@.len()
                    && v@.subrange(parts@[j].0 as int, parts@[j].1 as int) == sparts[j],
            0 <= k <= 4,
            octets@.len() == k,
            forall|j: int|
                0 <= j < k ==> is_dec_octet(#[trigger] sparts[j]) && octets@[j]
                    == dec_val(sparts[j]),
        decreases 4 - k,
    {
        let (a, b) = parts[k];
        match parse_dec_octet(v, a, b) {
            Some(x) => {
                octets.push(x);
            },
            None => {
                assert(!is_dec_octet(sparts[k as int]));
                return None;
            },
        }
        k = k + 1;
    }
    Some(IpAddress::V4(octets[0], octets[1], octets[2], octets[3]))
}

/// Finds the first occurrence of two adjacent colons in `v`.
fn find_double_colon(v: &Vec<char>) -> (r: Option<usize>)
    ensures
        match r {
            Some(i) => first_double_colon(v@) == Some(i as int) && i + 2 <= v@.len(),
            None => first_double_colon(v@) is None,
        },
{
    if v.len() < 2 {
        return None;
    }
    let mut i: usize = 0;
    proof {
        assert(v@.skip(0) =~= v@);
    }
    while i < v.len() - 1
        invariant
            v@.len() >= 2,
            i <= v@.len() - 1,
            first_double_colon(v@) == match first_double_colon(v@.skip(i as int)) {
                Some(j) => Some(i + j),
                None => None,
            },
        decreases v@.len() - i,
    {
        proof {
            let s = v@.skip(i as int);
            assert(s.len() >= 2);
            assert(s[0] == v@[i as int]);
            assert(s[1] == v@[i as int + 1]);
            assert(s.drop_first() =~= v@.skip(i as int + 1));
        }
        if v[i] == ':' && v[i + 1] == ':' {
            return Some(i);
        }
        i = i + 1;
    }
    proof {
        assert(v@.skip(i as int).len() < 2);
    }
    None
}

/// Reads a sequence of parts of `v` as IPv6 group values.
fn parse_groups(v: &Vec<char>, parts: &Vec<(usize, usize)>, v4_tail: bool) -> (r: Option<
    Vec<u16>,
>)
    requires
        forall|j: int|
            0 <= j < parts@.len() ==> (#[trigger] parts@[j]).0 <= parts@[j].1 <= v@.len(),
    ensures
        ({
            let sviews = parts_views(v@, parts@);
            match r {
                Some(vals) => group_vals(sviews, v4_tail) == Some(vals@),
                None => group_vals(sviews, v4_tail) is None,
            }
        }),
{
    let ghost sviews = parts_views(v@, parts@);
    let mut vals: Vec<u16> = Vec::new();
    if parts.len() == 0 {
        assert(sviews =~= Seq::<Seq<char>>::empty());
        assert(vals@ =~= Seq::<u16>::empty());
        return Some(vals);
    }
    let mut k: usize = 0;
    proof {
        assert(sviews.skip(0) =~= sviews);
    }
    while k < parts.len() - 1
        invariant
            forall|j: int|
                0 <= j < parts@.len() ==> (#[trigger] parts@[j]).0 <= parts@[j].1 <= v@.len(),
            sviews == parts_views(v@, parts@),
            parts@.len() >= 1,
            k < parts@.len(),
            group_vals(sviews, v4_tail) == match group_vals(sviews.skip(k as int), v4_tail) {
                Some(rest) => Some(vals@ + rest),
                None => None,
            },
        decreases parts@.len() - k,
    {
        let (a, b) = parts[k];
        proof {
            assert(sviews.skip(k as int).len() >= 2);
            assert(sviews.skip(k as int)[0] == sviews[k as int]);
            assert(sviews[k as int] == v@.subrange(a as int, b as int));
            assert(sviews.skip(k as int).drop_first() =~= sviews.skip(k as int + 1));
        }
        match parse_hex_group(v, a, b) {
            Some(x) => {
                let ghost old_vals = vals@;
                vals.push(x);
                proof {
                    if let Some(rest) = group_vals(sviews.skip(k as int + 1), v4_tail) {
                        assert(group_vals(sviews.skip(k as int), v4_tail) == Some(
                            seq![hex_val(sviews[k as int]) as u16] + rest,
                        ));
                        assert(old_vals + (seq![hex_val(sviews[k as int]) as u16] + rest)
                            =~= vals@ + rest);
                    }
                }
            },
            None => {
                return None;
            },
        }
        k = k + 1;
    }
    // The final part: a hexadecimal group, or an embedded IPv4 tail.
    let (a, b) = parts[k];
    proof {
        assert(sviews.skip(k as int).len() == 1);
        assert(sviews.skip(k as int)[0] == sviews[k as int]);
        assert(sviews[k as int] == v@.subrange(a as int, b as int));
    }
    if v4_tail && range_contains(v, a, b, '.') {
        let tail = subvec(v, a, b);
        match parse_ipv4_vec(&tail) {
            Some(IpAddress::V4(o0, o1, o2, o3)) => {
                let hi: u16 = (o0 as u16) * 256 + (o1 as u16);
                let lo: u16 = (o2 as u16) * 256 + (o3 as u16);
                let ghost old_vals = vals@;
                vals.push(hi);
                vals.push(lo);
                proof {
                    assert(group_vals(sviews.skip(k as int), v4_tail) == Some(
                        seq![hi, lo],
                    ));
                    assert(old_vals + seq![hi, lo] =~= vals@);
                }
                Some(vals)
            },
            Some(IpAddress::V6(..)) => {
                proof {
                    assert(false);
                }
                None
            },
            None => None,
        }
    } else {
        match parse_hex_group(v, a, b) {
            Some(x) => {
                let ghost old_vals = vals@;
                vals.push(x);
                proof {
                    assert(group_vals(sviews.skip(k as int), v4_tail) == Some(seq![x]));
                    assert(old_vals + seq![x] =~= vals@);
                }
                Some(vals)
            },
            None => None,
        }
    }
}

/// Reads the whole of `v` as an IPv6 literal.
fn parse_ipv6_vec(v: &Vec<char>) -> (r: Option<IpAddress>)
    ensures
        r == ipv6_of(v@),
{
    match find_double_colon(v) {
        None => {
            let parts = split_indices(v, ':');
            proof {
                assert(parts_views(v@, parts@) =~~= split_at_sep(v@, ':'));
            }
            match parse_groups(v, &parts, true) {
                Some(vals) => {
                    if vals.len() == 8 {
                        Some(
                            IpAddress::V6(
                                vals[0], vals[1], vals[2], vals[3], vals[4], vals[5],
                                vals[6], vals[7],
                            ),
                        )
                    } else {
                        None
                    }
                },
                None => None,
            }
        },
        Some(i) => {
            let n = v.len();
            let head = subvec(v, 0, i);
            let tail = subvec(v, i + 2, n);
            proof {
                assert(head@ =~= v@.take(i as int));
                assert(tail@ =~= v@.skip(i as int + 2));
            }
            let head_parts: Vec<(usize, usize)> = if head.len() == 0 {
                Vec::new()
            } else {
                split_indices(&head, ':')
            };
            let tail_parts: Vec<(usize, usize)> = if tail.len() == 0 {
                Vec::new()
            } else {
                split_indices(&tail, ':')
            };
            proof {
                if head@.len() == 0 {
                    assert(parts_views(head@, head_parts@) =~~= Seq::<Seq<char>>::empty());
                } else {
                    assert(parts_views(head@, head_parts@) =~~= split_at_sep(head@, ':'));
                }
                if tail@.len() == 0 {
                    assert(parts_views(tail@, tail_parts@) =~~= Seq::<Seq<char>>::empty());
                } else {
                    assert(parts_views(tail@, tail_parts@) =~~= split_at_sep(tail@, ':'));
                }
            }
            let hv = match parse_groups(&head, &head_parts, false) {
                Some(hv) => hv,
                None => {
                    return None;
                },
            };
            let tv = match parse_groups(&tail, &tail_parts, true) {
                Some(tv) => tv,
                None => {
                    return None;
                },
            };
            if hv.len() > 7 || tv.len() > 7 - hv.len() {
                return None;
            }
            let mut groups: Vec<u16> = Vec::new();
            let mut k: usize = 0;
            while k < hv.len()
                invariant
                    k <= hv@.len(),
                    groups@ =~= hv@.take(k as int),
                decreases hv@.len() - k,
            {
                groups.push(hv[k]);
                proof {
                    assert(groups@ =~= hv@.take(k as int + 1));
                }
                k = k + 1;
            }
            let fill = 8 - hv.len() - tv.len();
            let mut z: usize = 0;
            while z < fill
                invariant
                    z <= fill,
                    fill == 8 - hv@.len() - tv@.len(),
                    hv@.len() + tv@.len() <= 7,
                    groups@ =~= hv@ + zero_groups(z as int),
                decreases fill - z,
            {
                groups.push(0u16);
                proof {
                    assert(groups@ =~= hv@ + zero_groups(z as int + 1));
                }
                z = z + 1;
            }
            let mut t: usize = 0;
            while t < tv.len()
                invariant
                    t <= tv@.len(),
                    fill == 8 - hv@.len() - tv@.len(),
                    hv@.len() + tv@.len() <= 7,
                    groups@ =~= hv@ + zero_groups(fill as int) + tv@.take(t as int),
                decreases tv@.len() - t,
            {
                groups.push(tv[t]);
                proof {
                    assert(groups@ =~= hv@ + zero_groups(fill as int) + tv@.take(
                        t as int + 1,
                    ));
                }
                t = t + 1;
            }
            proof {
                assert(tv@.take(tv@.len() as int) =~= tv@);
                assert(groups@ =~= hv@ + zero_groups(fill as int) + tv@);
                assert(groups@.len() == 8);
            }
            Some(
                IpAddress::V6(
                    groups[0], groups[1], groups[2], groups[3], groups[4], groups[5],
                    groups[6], groups[7],
                ),
            )
        },
    }
}

/// Reads the whole of `v` as an IPv4 or IPv6 literal.
pub fn parse_ip_chars(v: &Vec<char>) -> (r: Option<IpAddress>)
    ensures
        r == ip_of(v@),
{
    match parse_ipv4_vec(v) {
        Some(a) => Some(a),
        None => parse_ipv6_vec(v),
    }
}

/// Collects the characters of `s` into a vector.
pub fn str_chars(s: &str) -> (r: Vec<char>)
    ensures
        r@ == s@,
{
    let len = s.unicode_len();
    let mut r: Vec<char> = Vec::new();
    let mut i: usize = 0;
    while i < len
        invariant
            len == s@.len(),
            i <= len,
            r@ =~= s@.take(i as int),
        decreases len - i,
    {
        r.push(s.get_char(i));
        proof {
            assert(r@ =~= s@.take(i as int + 1));
        }
        i = i + 1;
    }
    proof {
        assert(s@.take(len as int) =~= s@);
    }
    r
}

/// Reads `s` as an IPv4 or IPv6 literal.
pub fn parse_ip(s: &str) -> (r: Option<IpAddress>)
    ensures
        r == ip_of(s@),
{
    let v = str_chars(s);
    parse_ip_chars(&v)
}

/// The character for the decimal or hexadecimal digit `n`.
pub open spec fn digit_char(n: int) -> char
    recommends
        0 <= n < 16,
{
    if n == 0 {
        '0'
    } else if n == 1 {
        '1'
    } else if n == 2 {
        '2'
    } else if n == 3 {
        '3'
    } else if n == 4 {
        '4'
    } else if n == 5 {
        '5'
    } else if n == 6 {
        '6'
    } else if n == 7 {
        '7'
    } else if n == 8 {
        '8'
    } else if n == 9 {
        '9'
    } else if n == 10 {
        'a'
    } else if n == 11 {
        'b'
    } else if n == 12 {
        'c'
    } else if n == 13 {
        'd'
    } else if n == 14 {
        'e'
    } else {
        'f'
    }
}

/// The shortest decimal text of `n`, most significant digit first.
pub open spec fn dec_text(n: int) -> Seq<char>
    recommends
        n >= 0,
    decreases n,
{
    if n < 10 {
        seq![digit_char(n)]
    } else {
        dec_text(n / 10) + seq![digit_char(n % 10)]
    }
}

/// The shortest lower-case hexadecimal text of `n`, most significant
/// digit first.
pub open spec fn hex_text(n: int) -> Seq<char>
    recommends
        n >= 0,
    decreases n,
{
    if n < 16 {
        seq![digit_char(n)]
    } else {
        hex_text(n / 16) + seq![digit_char(n % 16)]
    }
}

/// Dotted decimal text of four octet values.
pub open spec fn quad_text(a: int, b: int, c: int, d: int) -> Seq<char> {
    dec_text(a) + seq!['.'] + dec_text(b) + seq!['.'] + dec_text(c) + seq!['.'] + dec_text(d)
}

/// The length of the run of zero groups starting at `i`.
pub open spec fn run_len_at(g: Seq<u16>, i: int) -> int
    decreases g.len() - i,
{
    if i < 0 || i >= g.len() || g[i] != 0 {
        0
    } else {
        1 + run_len_at(g, i + 1)
    }
}

/// The leftmost longest run of zero groups at or after `i`: its start
/// and its length.
pub open spec fn best_run_from(g: Seq<u16>, i: int) -> (int, int)
    decreases g.len() - i,
{
    if i >= g.len() {
        (i, 0)
    } else {
        let cur = run_len_at(g, i);
        let rest = best_run_from(g, i + 1);
        if cur >= rest.1 {
            (i, cur)
        } else {
            rest
        }
    }
}

/// The hexadecimal texts of the groups `g`, colon-separated.
pub open spec fn join_hex(g: Seq<u16>) -> Seq<char>
    decreases g.len(),
{
    if g.len() == 0 {
        Seq::<char>::empty()
    } else if g.len() == 1 {
        hex_text(g[0] as int)
    } else {
        join_hex(g.drop_last()) + seq![':'] + hex_text(g.last() as int)
    }
}

/// The text of eight IPv6 groups: the leftmost longest run of two or
/// more zero groups is elided as `::`; a single zero group is not.
pub open spec fn v6_text(g: Seq<u16>) -> Seq<char> {
    let (s, l) = best_run_from(g, 0);
    if l >= 2 {
        join_hex(g.take(s)) + seq![':', ':'] + join_hex(g.skip(s + l))
    } else {
        join_hex(g)
    }
}

/// The text of an address: dotted decimal octets for IPv4; for IPv6 the
/// canonical lower-case form, with the longest zero run compressed to
/// `::` and an IPv4-mapped address shown with its dotted tail.
pub open spec fn ip_text(a: IpAddress) -> Seq<char> {
    match a {
        IpAddress::V4(a0, a1, a2, a3) => quad_text(a0 as int, a1 as int, a2 as int, a3 as int),
        IpAddress::V6(g0, g1, g2, g3, g4, g5, g6, g7) => if g0 == 0 && g1 == 0 && g2 == 0
            && g3 == 0 && g4 == 0 && g5 == 0xffff {
            seq![':', ':', 'f', 'f', 'f', 'f', ':'] + quad_text(
                g6 as int / 256,
                g6 as int % 256,
                g7 as int / 256,
                g7 as int % 256,
            )
        } else {
            v6_text(seq![g0, g1, g2, g3, g4, g5, g6, g7])
        },
    }
}

/// The one-character string for the digit `d`.
fn digit_str(d: u8) -> (r: &'static str)
    requires
        d < 16,
    ensures
        r@ == seq![digit_char(d as int)],
{
    proof {
        reveal_strlit("0");
        reveal_strlit("1");
        reveal_strlit("2");
        reveal_strlit("3");
        reveal_strlit("4");
        reveal_strlit("5");
        reveal_strlit("6");
        reveal_strlit("7");
        reveal_strlit("8");
        reveal_strlit("9");
        reveal_strlit("a");
        reveal_strlit("b");
        reveal_strlit("c");
        reveal_strlit("d");
        reveal_strlit("e");
        reveal_strlit("f");
    }
    match d {
        0 => "0",
        1 => "1",
        2 => "2",
        3 => "3",
        4 => "4",
        5 => "5",
        6 => "6",
        7 => "7",
        8 => "8",
        9 => "9",
        10 => "a",
        11 => "b",
        12 => "c",
        13 => "d",
        14 => "e",
        _ => "f",
    }
}

/// Appends the decimal text of `n` to `s`.
fn push_dec_u8(s: &mut String, n: u8)
    ensures
        final(s)@ == old(s)@ + dec_text(n as int),
{
    if n < 10 {
        s.append(digit_str(n));
        proof {
            assert(final(s)@ =~= old(s)@ + dec_text(n as int));
        }
    } else if n < 100 {
        let q = n / 10;
        let r = n % 10;
        s.append(digit_str(q));
        s.append(digit_str(r));
        proof {
            assert(dec_text(n as int) == dec_text(q as int) + seq![digit_char(r as int)]);
            assert(final(s)@ =~= old(s)@ + dec_text(n as int));
        }
    } else {
        let q = n / 10;
        let r = n % 10;
        s.append(digit_str(q / 10));
        s.append(digit_str(q % 10));
        s.append(digit_str(r));
        proof {
            assert(dec_text(n as int) == dec_text(q as int) + seq![digit_char(r as int)]);
            assert(dec_text(q as int) == dec_text((q / 10) as int) + seq![
                digit_char((q % 10) as int),
            ]);
            assert(final(s)@ =~= old(s)@ + dec_text(n as int));
        }
    }
}

/// Appends the hexadecimal text of `n` to `s`.
fn push_hex_u16(s: &mut String, n: u16)
    ensures
        final(s)@ == old(s)@ + hex_text(n as int),
{
    if n < 16 {
        s.append(digit_str(n as u8));
        proof {
            assert(final(s)@ =~= old(s)@ + hex_text(n as int));
        }
    } else if n < 256 {
        let q = n / 16;
        let r = n % 16;
        s.append(digit_str(q as u8));
        s.append(digit_str(r as u8));
        proof {
            assert(hex_text(n as int) == hex_text(q as int) + seq![digit_char(r as int)]);
            assert(final(s)@ =~= old(s)@ + hex_text(n as int));
        }
    } else if n < 4096 {
        let q = n / 16;
        let r = n % 16;
        s.append(digit_str((q / 16) as u8));
        s.append(digit_str((q % 16) as u8));
        s.append(digit_str(r as u8));
        proof {
            assert(hex_text(n as int) == hex_text(q as int) + seq![digit_char(r as int)]);
            assert(hex_text(q as int) == hex_text((q / 16) as int) + seq![
                digit_char((q % 16) as int),
            ]);
            assert(final(s)@ =~= old(s)@ + hex_text(n as int));
        }
    } else {
        let q1 = n / 16;
        let q2 = q1 / 16;
        s.append(digit_str((q2 / 16) as u8));
        s.append(digit_str((q2 % 16) as u8));
        s.append(digit_str((q1 % 16) as u8));
        s.append(digit_str((n % 16) as u8));
        proof {
            assert(hex_text(n as int) == hex_text(q1 as int) + seq![
                digit_char((n % 16) as int),
            ]);
            assert(hex_text(q1 as int) == hex_text(q2 as int) + seq![
                digit_char((q1 % 16) as int),
            ]);
            assert(hex_text(q2 as int) == hex_text((q2 / 16) as int) + seq![
                digit_char((q2 % 16) as int),
            ]);
            assert(final(s)@ =~= old(s)@ + hex_text(n as int));
        }
    }
}

/// Formats an address as text.
/// Appends the hexadecimal texts of the groups `g[a..b)` to `s`,
/// colon-separated.
fn append_joined(s: &mut String, g: &Vec<u16>, a: usize, b: usize)
    requires
        a <= b <= g@.len(),
    ensures
        final(s)@ == old(s)@ + join_hex(g@.subrange(a as int, b as int)),
{
    let ghost base = s@;
    let mut k: usize = a;
    proof {
        assert(g@.subrange(a as int, a as int) =~= Seq::<u16>::empty());
        assert(s@ =~= base + join_hex(g@.subrange(a as int, a as int)));
    }
    while k < b
        invariant
            a <= k <= b <= g@.len(),
            s@ == base + join_hex(g@.subrange(a as int, k as int)),
        decreases b - k,
    {
        if k > a {
            s.append(":");
        }
        push_hex_u16(s, g[k]);
        proof {
            let pre = g@.subrange(a as int, k as int);
            let ext = g@.subrange(a as int, k as int + 1);
            assert(ext.drop_last() =~= pre);
            assert(ext.last() == g@[k as int]);
            if k == a {
                assert(ext.len() == 1);
                assert(ext[0] == g@[k as int]);
            } else {
                reveal_strlit(":");
                assert((":"@) =~= seq![':']);
            }
            assert(s@ =~= base + join_hex(ext));
        }
        k = k + 1;
    }
}

/// Formats eight IPv6 groups, compressing the leftmost longest run of
/// two or more zero groups to `::`.
fn format_v6(groups: &Vec<u16>) -> (r: String)
    requires
        groups@.len() == 8,
    ensures
        r@ == v6_text(groups@),
{
    let mut best_s: usize = 8;
    let mut best_l: usize = 0;
    let mut run: usize = 0;
    let mut i: usize = 8;
    while i > 0
        invariant
            groups@.len() == 8,
            i <= 8,
            run as int == run_len_at(groups@, i as int),
            run <= 8 - i,
            (best_s as int, best_l as int) == best_run_from(groups@, i as int),
            best_s + best_l <= 8,
        decreases i,
    {
        i = i - 1;
        if groups[i] == 0 {
            run = run + 1;
        } else {
            run = 0;
        }
        if run >= best_l {
            best_s = i;
            best_l = run;
        }
    }
    let mut s = String::new();
    if best_l >= 2 {
        append_joined(&mut s, groups, 0, best_s);
        s.append("::");
        append_joined(&mut s, groups, best_s + best_l, 8);
        proof {
            reveal_strlit("::");
            assert(("::"@) =~= seq![':', ':']);
            assert(groups@.subrange(0, best_s as int) =~= groups@.take(best_s as int));
            assert(groups@.subrange((best_s + best_l) as int, 8) =~= groups@.skip(
                (best_s + best_l) as int,
            ));
            assert(s@ =~= v6_text(groups@));
        }
    } else {
        append_joined(&mut s, groups, 0, 8);
        proof {
            assert(groups@.subrange(0, 8) =~= groups@);
            assert(s@ =~= v6_text(groups@));
        }
    }
    s
}

/// Formats an address as text.
pub fn format_ip(a: &IpAddress) -> (r: String)
    ensures
        r@ == ip_text(*a),
{
    proof {
        reveal_strlit(".");
    }
    let mut s = String::new();
    match *a {
        IpAddress::V4(a0, a1, a2, a3) => {
            push_dec_u8(&mut s, a0);
            s.append(".");
            push_dec_u8(&mut s, a1);
            s.append(".");
            push_dec_u8(&mut s, a2);
            s.append(".");
            push_dec_u8(&mut s, a3);
            proof {
                assert(("."@) =~= seq!['.']);
                assert(s@ =~= ip_text(*a));
            }
        },
        IpAddress::V6(g0, g1, g2, g3, g4, g5, g6, g7) => {
            if g0 == 0 && g1 == 0 && g2 == 0 && g3 == 0 && g4 == 0 && g5 == 0xffff {
                s.append("::ffff:");
                push_dec_u8(&mut s, (g6 / 256) as u8);
                s.append(".");
                push_dec_u8(&mut s, (g6 % 256) as u8);
                s.append(".");
                push_dec_u8(&mut s, (g7 / 256) as u8);
                s.append(".");
                push_dec_u8(&mut s, (g7 % 256) as u8);
                proof {
                    reveal_strlit("::ffff:");
                    assert(("."@) =~= seq!['.']);
                    assert(("::ffff:"@) =~= seq![':', ':', 'f', 'f', 'f', 'f', ':']);
                    assert((g6 / 256) as int == g6 as int / 256);
                    assert((g6 % 256) as int == g6 as int % 256);
                    assert((g7 / 256) as int == g7 as int / 256);
                    assert((g7 % 256) as int == g7 as int % 256);
                    assert(s@ =~= ip_text(*a));
                }
            } else {
                let mut groups: Vec<u16> = Vec::new();
                groups.push(g0);
                groups.push(g1);
                groups.push(g2);
                groups.push(g3);
                groups.push(g4);
                groups.push(g5);
                groups.push(g6);
                groups.push(g7);
                proof {
                    assert(groups@ =~= seq![g0, g1, g2, g3, g4, g5, g6, g7]);
                }
                s = format_v6(&groups);
            }
        },
    }
    s
}

} // verus!
