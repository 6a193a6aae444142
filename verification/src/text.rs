//! Text as a sequence of characters: splitting on a separator and reading
//! decimal and hexadecimal numbers.

use vstd::prelude::*;
use vstd::string::StringExecFns;

verus! {

/// Whether `c` is one of `0` to `9`.
pub open spec fn is_digit(c: char) -> bool {
    '0' <= c && c <= '9'
}

/// The number a decimal digit stands for.
pub open spec fn digit_value(c: char) -> nat {
    (c as nat - '0' as nat) as nat
}

/// Whether every character of `s` is a decimal digit.
pub open spec fn all_digits(s: Seq<char>) -> bool {
    forall|i: int| 0 <= i < s.len() ==> is_digit(#[trigger] s[i])
}

/// The number written by the decimal digits `s`, most significant first.
pub open spec fn decimal_value(s: Seq<char>) -> nat
    decreases s.len(),
{
    if s.len() == 0 {
        0
    } else {
        decimal_value(s.drop_last()) * 10 + digit_value(s.last())
    }
}

/// Whether `c` is a hexadecimal digit of either case.
pub open spec fn is_hex_digit(c: char) -> bool {
    is_digit(c) || ('a' <= c && c <= 'f') || ('A' <= c && c <= 'F')
}

/// The number a hexadecimal digit stands for.
pub open spec fn hex_digit_value(c: char) -> nat {
    if is_digit(c) {
        digit_value(c)
    } else if 'a' <= c && c <= 'f' {
        (c as nat - 'a' as nat + 10) as nat
    } else {
        (c as nat - 'A' as nat + 10) as nat
    }
}

/// Whether every character of `s` is a hexadecimal digit.
pub open spec fn all_hex_digits(s: Seq<char>) -> bool {
    forall|i: int| 0 <= i < s.len() ==> is_hex_digit(#[trigger] s[i])
}

/// The number written by the hexadecimal digits `s`, most significant first.
pub open spec fn hex_value(s: Seq<char>) -> nat
    decreases s.len(),
{
    if s.len() == 0 {
        0
    } else {
        hex_value(s.drop_last()) * 16 + hex_digit_value(s.last())
    }
}

/// The index of the first `sep` in `s`, or the length of `s` if there is none.
pub open spec fn first_index_of(s: Seq<char>, sep: char) -> int
    decreases s.len(),
{
    if s.len() == 0 {
        0
    } else if s[0] == sep {
        0
    } else {
        1 + first_index_of(s.drop_first(), sep)
    }
}

/// The fields of `s` between occurrences of `sep`. A text without `sep` is
/// one field; `n` separators give `n + 1` fields, some of them possibly empty.
pub open spec fn split_on(s: Seq<char>, sep: char) -> Seq<Seq<char>>
    decreases s.len(),
{
    let i = first_index_of(s, sep);
    if 0 <= i < s.len() {
        seq![s.subrange(0, i)] + split_on(s.subrange(i + 1, s.len() as int), sep)
    } else {
        seq![s]
    }
}

/// What `first_index_of` finds: nothing before it is the separator, and it
/// is the separator unless the text ran out.
pub proof fn lemma_first_index_of(s: Seq<char>, sep: char)
    ensures
        0 <= first_index_of(s, sep) <= s.len(),
        forall|j: int| 0 <= j < first_index_of(s, sep) ==> s[j] != sep,
        first_index_of(s, sep) < s.len() ==> s[first_index_of(s, sep)] == sep,
    decreases s.len(),
{
    if s.len() != 0 && s[0] != sep {
        let rest = s.drop_first();
        lemma_first_index_of(rest, sep);
        assert forall|j: int| 0 <= j < first_index_of(s, sep) implies s[j] != sep by {
            if j > 0 {
                assert(s[j] == rest[j - 1]);
            }
        }
        assert(first_index_of(rest, sep) < rest.len() ==> rest[first_index_of(rest, sep)]
            == s[first_index_of(s, sep)]);
    }
}

/// A position with the separator, and none before it, is the first index.
pub proof fn lemma_first_index_is(s: Seq<char>, sep: char, i: int)
    requires
        0 <= i <= s.len(),
        forall|j: int| 0 <= j < i ==> s[j] != sep,
        i < s.len() ==> s[i] == sep,
    ensures
        first_index_of(s, sep) == i,
{
    lemma_first_index_of(s, sep);
    let k = first_index_of(s, sep);
    if k < i {
        assert(s[k] != sep);
    } else if k > i {
        assert(s[i] != sep);
    }
}

/// The code point of `c`.
pub fn char_code(c: char) -> (code: u32)
    ensures
        code as int == c as int,
        code <= 0x10FFFF,
{
    c as u32
}

/// The characters of `s`, in order.
pub fn chars_of(s: &str) -> (chars: Vec<char>)
    ensures
        chars@ == s@,
{
    let mut chars: Vec<char> = Vec::new();
    for c in it: s.chars()
        invariant
            it.seq() == s@,
            chars@ == it.seq().take(it.index() as int),
    {
        chars.push(c);
    }
    chars
}

/// The characters of `text` from index `from` up to, not including, `to`.
pub fn copy_range(text: &Vec<char>, from: usize, to: usize) -> (part: Vec<char>)
    requires
        from <= to <= text.len(),
    ensures
        part@ == text@.subrange(from as int, to as int),
{
    let mut part: Vec<char> = Vec::new();
    let mut i: usize = from;
    while i < to
        invariant
            from <= i <= to <= text.len(),
            part@ == text@.subrange(from as int, i as int),
        decreases to - i,
    {
        part.push(text[i]);
        i = i + 1;
        assert(part@ =~= text@.subrange(from as int, i as int));
    }
    part
}

/// The views of the fields of `fields`, in order.
pub open spec fn field_views(fields: Seq<Vec<char>>) -> Seq<Seq<char>> {
    fields.map_values(|f: Vec<char>| f@)
}

/// Splits `text` at every `sep`.
pub fn split(text: &Vec<char>, sep: char) -> (fields: Vec<Vec<char>>)
    ensures
        field_views(fields@) == split_on(text@, sep),
{
    let n = text.len();
    let mut fields: Vec<Vec<char>> = Vec::new();
    let mut start: usize = 0;
    let mut i: usize = 0;
    proof {
        assert(text@.subrange(0, n as int) =~= text@);
        assert(field_views(fields@) + split_on(text@, sep) =~= split_on(text@, sep));
    }
    while i < n
        invariant
            n == text.len(),
            start <= i <= n,
            forall|j: int| start <= j < i ==> text@[j] != sep,
            split_on(text@, sep) == field_views(fields@) + split_on(
                text@.subrange(start as int, n as int),
                sep,
            ),
        decreases n - i,
    {
        if text[i] == sep {
            let field = copy_range(text, start, i);
            proof {
                let rest = text@.subrange(start as int, n as int);
                lemma_first_index_is(rest, sep, i - start);
                assert(rest.subrange(0, i - start) =~= text@.subrange(start as int, i as int));
                assert(rest.subrange(i - start + 1, rest.len() as int) =~= text@.subrange(
                    i + 1,
                    n as int,
                ));
                assert(field_views(fields@.push(field)) =~= field_views(fields@) + seq![field@]);
            }
            fields.push(field);
            start = i + 1;
        }
        i = i + 1;
    }
    let last = copy_range(text, start, n);
    proof {
        let rest = text@.subrange(start as int, n as int);
        lemma_first_index_is(rest, sep, rest.len() as int);
        assert(field_views(fields@.push(last)) =~= field_views(fields@) + seq![last@]);
    }
    fields.push(last);
    fields
}

/// A number never gets smaller when more digits follow.
pub proof fn lemma_decimal_value_grows(s: Seq<char>, k: int)
    requires
        0 <= k <= s.len(),
    ensures
        decimal_value(s.take(k)) <= decimal_value(s),
    decreases s.len() - k,
{
    if k < s.len() {
        lemma_decimal_value_grows(s, k + 1);
        assert(s.take(k + 1).drop_last() =~= s.take(k));
    } else {
        assert(s.take(k) =~= s);
    }
}

/// Reads `field` as a decimal number of one or more digits that is at most
/// `limit`. Leading zeros are allowed here.
pub fn parse_decimal(field: &Vec<char>, limit: u32) -> (value: Option<u32>)
    requires
        limit <= 0x0fff_ffff,
    ensures
        value == if field@.len() > 0 && all_digits(field@) && decimal_value(field@) <= limit {
            Some(decimal_value(field@) as u32)
        } else {
            None
        },
{
    let n = field.len();
    if n == 0 {
        return None;
    }
    let mut acc: u32 = 0;
    let mut i: usize = 0;
    while i < n
        invariant
            n == field.len(),
            i <= n,
            limit <= 0x0fff_ffff,
            acc <= limit,
            acc == decimal_value(field@.take(i as int)),
            all_digits(field@.take(i as int)),
        decreases n - i,
    {
        let code: u32 = char_code(field[i]);
        if code < 48 || code > 57 {
            proof {
                assert(!is_digit(field@[i as int]));
            }
            return None;
        }
        let next: u32 = acc * 10 + (code - 48);
        proof {
            assert(field@.take(i + 1).drop_last() =~= field@.take(i as int));
            assert(field@.take(i + 1).last() == field@[i as int]);
            assert(next == decimal_value(field@.take(i + 1)));
            assert forall|j: int| 0 <= j < i + 1 implies is_digit(
                #[trigger] field@.take(i + 1)[j],
            ) by {
                if j < i {
                    assert(field@.take(i as int)[j] == field@[j]);
                }
            }
        }
        if next > limit {
            proof {
                lemma_decimal_value_grows(field@, i + 1);
            }
            return None;
        }
        acc = next;
        i = i + 1;
    }
    proof {
        assert(field@.take(n as int) =~= field@);
    }
    Some(acc)
}

/// Reads `field` as a hexadecimal number of one to four digits.
pub fn parse_hex_group(field: &Vec<char>) -> (value: Option<u16>)
    ensures
        value == if 1 <= field@.len() <= 4 && all_hex_digits(field@) {
            Some(hex_value(field@) as u16)
        } else {
            None
        },
        value is Some ==> value->0 == hex_value(field@),
{
    let n = field.len();
    if n == 0 || n > 4 {
        return None;
    }
    let mut acc: u32 = 0;
    let mut i: usize = 0;
    while i < n
        invariant
            n == field.len(),
            i <= n <= 4,
            acc == hex_value(field@.take(i as int)),
            all_hex_digits(field@.take(i as int)),
            i == 0 ==> acc == 0,
            i == 1 ==> acc < 16,
            i == 2 ==> acc < 256,
            i == 3 ==> acc < 4096,
            i == 4 ==> acc < 65536,
        decreases n - i,
    {
        let code: u32 = char_code(field[i]);
        let digit: u32 = if 48 <= code && code <= 57 {
            code - 48
        } else if 97 <= code && code <= 102 {
            code - 97 + 10
        } else if 65 <= code && code <= 70 {
            code - 65 + 10
        } else {
            proof {
                assert(!is_hex_digit(field@[i as int]));
            }
            return None;
        };
        let next: u32 = acc * 16 + digit;
        proof {
            assert(field@.take(i + 1).drop_last() =~= field@.take(i as int));
            assert(field@.take(i + 1).last() == field@[i as int]);
            assert(digit == hex_digit_value(field@[i as int]));
            assert forall|j: int| 0 <= j < i + 1 implies is_hex_digit(
                #[trigger] field@.take(i + 1)[j],
            ) by {
                if j < i {
                    assert(field@.take(i as int)[j] == field@[j]);
                }
            }
        }
        acc = next;
        i = i + 1;
    }
    proof {
        assert(field@.take(n as int) =~= field@);
    }
    Some(acc as u16)
}

/// Whether `c` occurs in `text`.
pub fn contains_char(text: &str, c: char) -> (found: bool)
    ensures
        found == text@.contains(c),
{
    let chars = chars_of(text);
    let mut i: usize = 0;
    while i < chars.len()
        invariant
            i <= chars.len(),
            chars@ == text@,
            forall|k: int| 0 <= k < i ==> chars@[k] != c,
        decreases chars.len() - i,
    {
        if chars[i] == c {
            return true;
        }
        i = i + 1;
    }
    false
}

/// The character that writes the digit `d`.
pub open spec fn digit_char(d: nat) -> char {
    (d + 48) as char
}

/// The decimal digits that write `n`, without leading zeros.
pub open spec fn decimal_text(n: nat) -> Seq<char>
    decreases n,
{
    if n < 10 {
        seq![digit_char(n)]
    } else {
        decimal_text(n / 10).push(digit_char(n % 10))
    }
}

/// The text of one decimal digit.
pub fn digit_text(d: u8) -> (text: &'static str)
    requires
        d < 10,
    ensures
        text@ == seq![digit_char(d as nat)],
{
    proof {
        reveal_strlit("0");
        reveal_strlit("1");
        reveal_strlit("2");
        reveal_strlit("3");
        reveal_strlit("4");
        reveal_strlit("5");
        reveal_strlit("6");
        reveal_strlit("7");
        reveal_strlit("8");
        reveal_strlit("9");
    }
    let text = match d {
        0 => "0",
        1 => "1",
        2 => "2",
        3 => "3",
        4 => "4",
        5 => "5",
        6 => "6",
        7 => "7",
        8 => "8",
        _ => "9",
    };
    assert(text@ =~= seq![digit_char(d as nat)]);
    text
}

/// Writes `n` in decimal digits.
pub fn render_decimal(n: u64) -> (text: String)
    ensures
        text@ == decimal_text(n as nat),
    decreases n,
{
    if n < 10 {
        digit_text(n as u8).to_owned()
    } else {
        let mut text = render_decimal(n / 10);
        text.append(digit_text((n % 10) as u8));
        text
    }
}

/// Whether two texts hold the same characters.
pub fn same_text(a: &str, b: &str) -> (same: bool)
    ensures
        same == (a@ == b@),
{
    let x = chars_of(a);
    let y = chars_of(b);
    if x.len() != y.len() {
        return false;
    }
    let mut i: usize = 0;
    while i < x.len()
        invariant
            i <= x.len(),
            x.len() == y.len(),
            x@ == a@,
            y@ == b@,
            forall|k: int| 0 <= k < i ==> x@[k] == y@[k],
        decreases x.len() - i,
    {
        if x[i] != y[i] {
            return false;
        }
        i = i + 1;
    }
    assert(x@ =~= y@);
    true
}

/// The code point of `c` with the letters `A` to `Z` taken for `a` to `z`.
pub open spec fn folded(c: char) -> int {
    if 'A' <= c && c <= 'Z' {
        c as int + 32
    } else {
        c as int
    }
}

/// Whether two texts hold the same characters when the case of the
/// letters `a` to `z` is left out of account.
pub open spec fn same_ignoring_case(a: Seq<char>, b: Seq<char>) -> bool {
    a.len() == b.len() && forall|i: int| 0 <= i < a.len() ==> folded(#[trigger] a[i]) == folded(b[i])
}

/// Compares two texts without regard to the case of the letters `a` to `z`.
pub fn same_text_ignoring_case(a: &str, b: &str) -> (same: bool)
    ensures
        same == same_ignoring_case(a@, b@),
{
    let x = chars_of(a);
    let y = chars_of(b);
    if x.len() != y.len() {
        return false;
    }
    let mut i: usize = 0;
    while i < x.len()
        invariant
            i <= x.len(),
            x.len() == y.len(),
            x@ == a@,
            y@ == b@,
            forall|k: int| 0 <= k < i ==> folded(#[trigger] x@[k]) == folded(y@[k]),
        decreases x.len() - i,
    {
        let p = char_code(x[i]);
        let q = char_code(y[i]);
        let fp: u32 = if 65 <= p && p <= 90 {
            p + 32
        } else {
            p
        };
        let fq: u32 = if 65 <= q && q <= 90 {
            q + 32
        } else {
            q
        };
        if fp != fq {
            assert(folded(x@[i as int]) != folded(y@[i as int]));
            return false;
        }
        i = i + 1;
    }
    true
}

/// How often `c` occurs in `s`.
pub open spec fn occurrences(s: Seq<char>, c: char) -> nat
    decreases s.len(),
{
    if s.len() == 0 {
        0
    } else {
        occurrences(s.drop_first(), c) + if s[0] == c {
            1nat
        } else {
            0nat
        }
    }
}

/// Characters before the first occurrence do not count.
pub proof fn lemma_occurrences_after(s: Seq<char>, c: char, i: int)
    requires
        0 <= i <= s.len(),
        forall|j: int| 0 <= j < i ==> s[j] != c,
    ensures
        occurrences(s, c) == occurrences(s.subrange(i, s.len() as int), c),
    decreases i,
{
    if i == 0 {
        assert(s.subrange(0, s.len() as int) =~= s);
    } else {
        let rest = s.drop_first();
        assert forall|j: int| 0 <= j < i - 1 implies rest[j] != c by {
            assert(rest[j] == s[j + 1]);
        }
        lemma_occurrences_after(rest, c, i - 1);
        assert(rest.subrange(i - 1, rest.len() as int) =~= s.subrange(i, s.len() as int));
    }
}

/// A text has one field more than it has separators.
pub proof fn lemma_split_counts_separators(s: Seq<char>, sep: char)
    ensures
        split_on(s, sep).len() == occurrences(s, sep) + 1,
    decreases s.len(),
{
    let i = first_index_of(s, sep);
    lemma_first_index_of(s, sep);
    lemma_occurrences_after(s, sep, i);
    if i < s.len() {
        let from = s.subrange(i, s.len() as int);
        let rest = s.subrange(i + 1, s.len() as int);
        assert(from[0] == sep);
        assert(from.drop_first() =~= rest);
        lemma_split_counts_separators(rest, sep);
    } else {
        assert(s.subrange(i, s.len() as int) =~= Seq::<char>::empty());
    }
}

/// Whether `c` occurs in one of the fields.
pub open spec fn some_field_holds(fields: Seq<Seq<char>>, c: char) -> bool {
    exists|k: int| 0 <= k < fields.len() && (#[trigger] fields[k]).contains(c)
}

/// Splitting loses no character but the separator and adds none: a
/// character other than the separator occurs in the text exactly when it
/// occurs in one of the fields.
pub proof fn lemma_split_keeps_chars(s: Seq<char>, sep: char, c: char)
    requires
        c != sep,
    ensures
        s.contains(c) <==> some_field_holds(split_on(s, sep), c),
    decreases s.len(),
{
    let fields = split_on(s, sep);
    let i = first_index_of(s, sep);
    lemma_first_index_of(s, sep);
    if i < s.len() {
        let head = s.subrange(0, i);
        let rest = s.subrange(i + 1, s.len() as int);
        let others = split_on(rest, sep);
        lemma_split_keeps_chars(rest, sep, c);
        assert(fields[0] == head);
        assert forall|k: int| 0 <= k < others.len() implies fields[k + 1] == others[k] by {}
        if s.contains(c) {
            let j = choose|j: int| 0 <= j < s.len() && s[j] == c;
            if j < i {
                assert(head[j] == c);
                assert(fields[0].contains(c));
            } else {
                assert(rest[j - i - 1] == c);
                assert(rest.contains(c));
                let k = choose|k: int| 0 <= k < others.len() && (#[trigger] others[k]).contains(c);
                assert(fields[k + 1].contains(c));
            }
        }
        if some_field_holds(fields, c) {
            let k = choose|k: int| 0 <= k < fields.len() && (#[trigger] fields[k]).contains(c);
            if k == 0 {
                let j = choose|j: int| 0 <= j < head.len() && head[j] == c;
                assert(s[j] == c);
            } else {
                assert(others[k - 1].contains(c));
                assert(rest.contains(c));
                let j = choose|j: int| 0 <= j < rest.len() && rest[j] == c;
                assert(s[j + i + 1] == c);
            }
        }
    } else {
        assert(fields[0] == s);
    }
}

} // verus!
