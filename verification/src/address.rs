//! IP addresses and the text forms they are written in.

use vstd::prelude::*;
use crate::text::{
    all_digits, all_hex_digits, char_code, chars_of, copy_range, decimal_value, first_index_of,
    hex_value, is_digit, lemma_first_index_of, lemma_split_keeps_chars, parse_decimal,
    parse_hex_group, some_field_holds, split, split_on,
};

verus! {

/// An address of either family, held as the number its bytes spell in
/// network byte order.
#[derive(Clone, Copy, Debug, PartialEq, Eq, Structural)]
pub enum IpAddress {
    V4(u32),
    V6(u128),
}

/// The octet that one field of a dotted IPv4 address writes: one to three
/// decimal digits, without a leading zero before other digits, at most 255.
pub open spec fn octet_of(field: Seq<char>) -> Option<nat> {
    if 1 <= field.len() <= 3 && all_digits(field) && (field.len() > 1 ==> field[0] != '0')
        && decimal_value(field) <= 255 {
        Some(decimal_value(field))
    } else {
        None
    }
}

/// The IPv4 address that `text` writes: exactly four octets separated by dots.
pub open spec fn ipv4_of(text: Seq<char>) -> Option<u32> {
    let f = split_on(text, '.');
    if f.len() == 4 && octet_of(f[0]) is Some && octet_of(f[1]) is Some && octet_of(f[2]) is Some
        && octet_of(f[3]) is Some {
        Some(
            (octet_of(f[0])->0 * 0x100_0000 + octet_of(f[1])->0 * 0x1_0000 + octet_of(f[2])->0
                * 0x100 + octet_of(f[3])->0) as u32,
        )
    } else {
        None
    }
}

/// The 16-bit group that one field of an IPv6 address writes: one to four
/// hexadecimal digits.
pub open spec fn hex_group_of(field: Seq<char>) -> Option<nat> {
    if 1 <= field.len() <= 4 && all_hex_digits(field) {
        Some(hex_value(field))
    } else {
        None
    }
}

/// The index of the first `::` in `text`, or the length of `text` if there
/// is none.
pub open spec fn first_double_colon(text: Seq<char>) -> int
    decreases text.len(),
{
    if text.len() < 2 {
        text.len() as int
    } else if text[0] == ':' && text[1] == ':' {
        0
    } else {
        1 + first_double_colon(text.drop_first())
    }
}

/// The groups that colon-separated fields write. Every field is a
/// hexadecimal group; only the last may instead be a dotted IPv4 address,
/// which stands for two groups, and only where `allow_v4` says so.
pub open spec fn groups_of_fields(fields: Seq<Seq<char>>, allow_v4: bool) -> Option<Seq<u16>> {
    let n = fields.len() as int;
    if n == 0 {
        None
    } else if !(forall|i: int| 0 <= i < n - 1 ==> hex_group_of(#[trigger] fields[i]) is Some) {
        None
    } else {
        let front = Seq::new((n - 1) as nat, |i: int| hex_group_of(fields[i])->0 as u16);
        let last = fields[n - 1];
        if hex_group_of(last) is Some {
            Some(front.push(hex_group_of(last)->0 as u16))
        } else if allow_v4 && ipv4_of(last) is Some {
            let v = ipv4_of(last)->0;
            Some(front.push((v / 0x1_0000) as u16).push((v % 0x1_0000) as u16))
        } else {
            None
        }
    }
}

/// The groups that one side of an IPv6 address writes; an empty side writes
/// none.
pub open spec fn groups_of(text: Seq<char>, allow_v4: bool) -> Option<Seq<u16>> {
    if text.len() == 0 {
        Some(Seq::empty())
    } else {
        groups_of_fields(split_on(text, ':'), allow_v4)
    }
}

/// The eight groups of the IPv6 address that `text` writes. Without `::`
/// the text holds all eight. With `::` the groups before it and after it
/// are at most seven together and zeros fill the gap; a dotted IPv4
/// address may close the text but not the part before `::`.
pub open spec fn ipv6_groups_of(text: Seq<char>) -> Option<Seq<u16>> {
    let i = first_double_colon(text);
    if i >= text.len() {
        match groups_of(text, true) {
            Some(g) => if g.len() == 8 {
                Some(g)
            } else {
                None
            },
            None => None,
        }
    } else {
        match (
            groups_of(text.subrange(0, i), false),
            groups_of(text.subrange(i + 2, text.len() as int), true),
        ) {
            (Some(head), Some(tail)) => if head.len() + tail.len() <= 7 {
                Some(head + Seq::new((8 - head.len() - tail.len()) as nat, |k: int| 0u16) + tail)
            } else {
                None
            },
            _ => None,
        }
    }
}

/// The number that eight groups spell, the first group most significant.
pub open spec fn groups_value(g: Seq<u16>) -> u128 {
    (g[0] * 0x1_0000_0000_0000_0000_0000_0000_0000 + g[1] * 0x1_0000_0000_0000_0000_0000_0000
        + g[2] * 0x1_0000_0000_0000_0000_0000 + g[3] * 0x1_0000_0000_0000_0000 + g[4]
        * 0x1_0000_0000_0000 + g[5] * 0x1_0000_0000 + g[6] * 0x1_0000 + g[7]) as u128
}

/// The IPv6 address that `text` writes.
pub open spec fn ipv6_of(text: Seq<char>) -> Option<u128> {
    match ipv6_groups_of(text) {
        Some(g) => Some(groups_value(g)),
        None => None,
    }
}

/// The address that `text` writes, of whichever family it is.
pub open spec fn ip_address_of(text: Seq<char>) -> Option<IpAddress> {
    match ipv4_of(text) {
        Some(v) => Some(IpAddress::V4(v)),
        None => match ipv6_of(text) {
            Some(v) => Some(IpAddress::V6(v)),
            None => None,
        },
    }
}

/// Reads one field of a dotted IPv4 address.
pub fn parse_octet(field: &Vec<char>) -> (value: Option<u8>)
    ensures
        value == match octet_of(field@) {
            Some(v) => Some(v as u8),
            None => None,
        },
{
    let n = field.len();
    if n == 0 || n > 3 {
        return None;
    }
    if n > 1 && char_code(field[0]) == 48 {
        return None;
    }
    match parse_decimal(field, 255) {
        Some(v) => Some(v as u8),
        None => None,
    }
}

/// Reads a dotted IPv4 address.
pub fn parse_ipv4(text: &Vec<char>) -> (value: Option<u32>)
    ensures
        value == ipv4_of(text@),
{
    let fields = split(text, '.');
    if fields.len() != 4 {
        return None;
    }
    proof {
        let f = split_on(text@, '.');
        assert(f[0] == fields@[0]@ && f[1] == fields@[1]@ && f[2] == fields@[2]@ && f[3]
            == fields@[3]@);
    }
    let a = parse_octet(&fields[0]);
    let b = parse_octet(&fields[1]);
    let c = parse_octet(&fields[2]);
    let d = parse_octet(&fields[3]);
    match (a, b, c, d) {
        (Some(a), Some(b), Some(c), Some(d)) => Some(
            (a as u32) * 0x100_0000 + (b as u32) * 0x1_0000 + (c as u32) * 0x100 + (d as u32),
        ),
        _ => None,
    }
}

/// Whether a `::` starts at index `j` of `text`.
pub open spec fn double_colon_at(text: Seq<char>, j: int) -> bool {
    0 <= j && j + 1 < text.len() && text[j] == ':' && text[j + 1] == ':'
}

/// What `first_double_colon` finds: no `::` starts before it, and one
/// starts at it unless the text ran out.
pub proof fn lemma_first_double_colon(text: Seq<char>)
    ensures
        0 <= first_double_colon(text) <= text.len(),
        forall|j: int| 0 <= j < first_double_colon(text) ==> !double_colon_at(text, j),
        first_double_colon(text) < text.len() ==> double_colon_at(text, first_double_colon(text)),
    decreases text.len(),
{
    if text.len() >= 2 && !(text[0] == ':' && text[1] == ':') {
        let rest = text.drop_first();
        lemma_first_double_colon(rest);
        let k = first_double_colon(text);
        assert forall|j: int| 0 <= j < k implies !double_colon_at(text, j) by {
            if j > 0 {
                assert(!double_colon_at(rest, j - 1));
                if j + 1 < text.len() {
                    assert(text[j] == rest[j - 1] && text[j + 1] == rest[j]);
                }
            }
        }
        if k < text.len() {
            assert(double_colon_at(rest, k - 1));
            assert(text[k] == rest[k - 1] && text[k + 1] == rest[k]);
        }
    }
}

/// A position where `::` starts, with none starting before it, is the
/// first; so is the end of a text that holds none.
pub proof fn lemma_first_double_colon_is(text: Seq<char>, i: int)
    requires
        0 <= i <= text.len(),
        forall|j: int| 0 <= j < i ==> !double_colon_at(text, j),
        i < text.len() ==> double_colon_at(text, i),
    ensures
        first_double_colon(text) == i,
{
    lemma_first_double_colon(text);
    let k = first_double_colon(text);
    if k < i {
        assert(!double_colon_at(text, k));
    } else if k > i {
        assert(!double_colon_at(text, i));
    }
}

/// Finds the first `::`.
pub fn find_double_colon(text: &Vec<char>) -> (index: usize)
    ensures
        index == first_double_colon(text@),
        index <= text.len(),
        index < text.len() ==> index + 2 <= text.len(),
{
    let n = text.len();
    if n < 2 {
        proof {
            lemma_first_double_colon_is(text@, n as int);
        }
        return n;
    }
    let mut i: usize = 0;
    while i < n - 1
        invariant
            n == text.len(),
            n >= 2,
            i <= n - 1,
            forall|j: int| 0 <= j < i ==> !double_colon_at(text@, j),
        decreases n - i,
    {
        if text[i] == ':' && text[i + 1] == ':' {
            proof {
                lemma_first_double_colon_is(text@, i as int);
            }
            return i;
        }
        i = i + 1;
    }
    proof {
        lemma_first_double_colon_is(text@, n as int);
    }
    n
}

/// Reads the groups on one side of an IPv6 address.
pub fn parse_groups(text: &Vec<char>, allow_v4: bool) -> (groups: Option<Vec<u16>>)
    ensures
        match groups_of(text@, allow_v4) {
            Some(g) => groups is Some && groups->0@ == g,
            None => groups is None,
        },
{
    if text.len() == 0 {
        return Some(Vec::new());
    }
    let fields = split(text, ':');
    let n = fields.len();
    let ghost fv = split_on(text@, ':');
    assert(fv.len() >= 1);
    assert(forall|k: int| 0 <= k < n ==> fv[k] == (#[trigger] fields@[k])@);
    let mut groups: Vec<u16> = Vec::new();
    let mut i: usize = 0;
    while i + 1 < n
        invariant
            n == fields.len(),
            n >= 1,
            i + 1 <= n,
            text@.len() != 0,
            fv == split_on(text@, ':'),
            fv.len() == n,
            forall|k: int| 0 <= k < n ==> fv[k] == (#[trigger] fields@[k])@,
            forall|k: int| 0 <= k < i ==> hex_group_of(#[trigger] fv[k]) is Some,
            groups@ == Seq::new(i as nat, |k: int| hex_group_of(fv[k])->0 as u16),
        decreases n - i,
    {
        match parse_hex_group(&fields[i]) {
            Some(g) => {
                groups.push(g);
                assert(groups@ =~= Seq::new((i + 1) as nat, |k: int| hex_group_of(fv[k])->0 as u16));
            },
            None => {
                assert(hex_group_of(fv[i as int]) is None);
                return None;
            },
        }
        i = i + 1;
    }
    let last = &fields[n - 1];
    match parse_hex_group(last) {
        Some(g) => {
            groups.push(g);
            Some(groups)
        },
        None => {
            if allow_v4 {
                match parse_ipv4(last) {
                    Some(v) => {
                        groups.push((v / 0x1_0000) as u16);
                        groups.push((v % 0x1_0000) as u16);
                        Some(groups)
                    },
                    None => None,
                }
            } else {
                None
            }
        },
    }
}

/// Puts eight groups together, the first most significant.
pub fn combine_groups(g: &Vec<u16>) -> (value: u128)
    requires
        g.len() == 8,
    ensures
        value == groups_value(g@),
{
    (g[0] as u128) * 0x1_0000_0000_0000_0000_0000_0000_0000 + (g[1] as u128)
        * 0x1_0000_0000_0000_0000_0000_0000 + (g[2] as u128) * 0x1_0000_0000_0000_0000_0000 + (
    g[3] as u128) * 0x1_0000_0000_0000_0000 + (g[4] as u128) * 0x1_0000_0000_0000 + (g[5] as u128)
        * 0x1_0000_0000 + (g[6] as u128) * 0x1_0000 + (g[7] as u128)
}

/// Reads an IPv6 address.
pub fn parse_ipv6(text: &Vec<char>) -> (value: Option<u128>)
    ensures
        value == ipv6_of(text@),
{
    let n = text.len();
    let i = find_double_colon(text);
    if i >= n {
        match parse_groups(text, true) {
            Some(g) => {
                if g.len() == 8 {
                    Some(combine_groups(&g))
                } else {
                    None
                }
            },
            None => None,
        }
    } else {
        let head_text = copy_range(text, 0, i);
        let tail_text = copy_range(text, i + 2, n);
        let head = match parse_groups(&head_text, false) {
            Some(head) => head,
            None => {
                return None;
            },
        };
        let tail = match parse_groups(&tail_text, true) {
            Some(tail) => tail,
            None => {
                return None;
            },
        };
        if head.len() > 7 || tail.len() > 7 - head.len() {
            return None;
        }
        let gap = 8 - head.len() - tail.len();
        let mut all: Vec<u16> = Vec::new();
        let mut k: usize = 0;
        while k < head.len()
            invariant
                k <= head.len(),
                all@ == head@.take(k as int),
            decreases head.len() - k,
        {
            all.push(head[k]);
            k = k + 1;
            assert(all@ =~= head@.take(k as int));
        }
        assert(head@.take(head.len() as int) =~= head@);
        k = 0;
        while k < gap
            invariant
                k <= gap,
                all@ == head@ + Seq::new(k as nat, |j: int| 0u16),
            decreases gap - k,
        {
            all.push(0);
            k = k + 1;
            assert(all@ =~= head@ + Seq::new(k as nat, |j: int| 0u16));
        }
        k = 0;
        while k < tail.len()
            invariant
                k <= tail.len(),
                all@ == head@ + Seq::new(gap as nat, |j: int| 0u16) + tail@.take(k as int),
            decreases tail.len() - k,
        {
            all.push(tail[k]);
            k = k + 1;
            assert(all@ =~= head@ + Seq::new(gap as nat, |j: int| 0u16) + tail@.take(k as int));
        }
        assert(tail@.take(tail.len() as int) =~= tail@);
        Some(combine_groups(&all))
    }
}

impl IpAddress {
    /// The number of bits in an address of this family.
    pub open spec fn bits(self) -> nat {
        match self {
            IpAddress::V4(_) => 32,
            IpAddress::V6(_) => 128,
        }
    }

    /// The address as a number.
    pub open spec fn value(self) -> nat {
        match self {
            IpAddress::V4(v) => v as nat,
            IpAddress::V6(v) => v as nat,
        }
    }

    /// Reads an address of either family from its characters.
    pub fn parse_chars(text: &Vec<char>) -> (address: Option<IpAddress>)
        ensures
            address == ip_address_of(text@),
    {
        match parse_ipv4(text) {
            Some(v) => Some(IpAddress::V4(v)),
            None => match parse_ipv6(text) {
                Some(v) => Some(IpAddress::V6(v)),
                None => None,
            },
        }
    }

    /// Reads an address of either family from its text form.
    pub fn parse(text: &str) -> (address: Option<IpAddress>)
        ensures
            address == ip_address_of(text@),
    {
        let chars = chars_of(text);
        IpAddress::parse_chars(&chars)
    }

    /// The number of bits in an address of this family.
    pub fn family_bits(&self) -> (bits: u8)
        ensures
            bits == self.bits(),
    {
        match self {
            IpAddress::V4(_) => 32,
            IpAddress::V6(_) => 128,
        }
    }

    /// Whether the address is of the IPv6 family.
    pub fn is_v6(&self) -> (v6: bool)
        ensures
            v6 == (*self is V6),
    {
        match self {
            IpAddress::V4(_) => false,
            IpAddress::V6(_) => true,
        }
    }
}

/// The text of an IPv4 address holds no colon, and the text of an IPv6
/// address holds one.
pub proof fn lemma_address_family(text: Seq<char>)
    ensures
        ip_address_of(text) matches Some(ip) ==> text.contains(':') == (ip is V6),
{
    if ipv4_of(text) is Some {
        let fields = split_on(text, '.');
        lemma_split_keeps_chars(text, '.', ':');
        if some_field_holds(fields, ':') {
            let k = choose|k: int| 0 <= k < fields.len() && (#[trigger] fields[k]).contains(':');
            let j = choose|j: int| 0 <= j < fields[k].len() && fields[k][j] == ':';
            assert(octet_of(fields[k]) is Some);
            assert(is_digit(fields[k][j]));
        }
    } else if ipv6_of(text) is Some {
        let i = first_double_colon(text);
        lemma_first_double_colon(text);
        if i < text.len() {
            assert(double_colon_at(text, i));
            assert(text[i] == ':');
        } else {
            let fields = split_on(text, ':');
            let k = first_index_of(text, ':');
            lemma_first_index_of(text, ':');
            if k >= text.len() {
                assert(fields.len() == 1);
            } else {
                assert(text[k] == ':');
            }
        }
    }
}

} // verus!
