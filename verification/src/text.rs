//! Text as sequences of characters: digits, numbers, separators.

use vstd::prelude::*;

verus! {

/// The value of a digit in the given radix (10 or 16), in either letter case.
pub open spec fn digit_value(c: char, radix: nat) -> Option<nat> {
    let code = c as nat;
    let value: Option<nat> = if 48 <= code <= 57 {
        Some((code - 48) as nat)
    } else if 97 <= code <= 102 {
        Some((code - 87) as nat)
    } else if 65 <= code <= 70 {
        Some((code - 55) as nat)
    } else {
        None
    };
    match value {
        Some(v) => if v < radix {
            Some(v)
        } else {
            None
        },
        None => None,
    }
}

/// One or more digits of the radix, and nothing else.
pub open spec fn is_number(s: Seq<char>, radix: nat) -> bool {
    &&& s.len() > 0
    &&& forall|i: int| 0 <= i < s.len() ==> (#[trigger] digit_value(s[i], radix)) is Some
}

/// The number that a sequence of digits writes, most significant digit first.
pub open spec fn number_value(s: Seq<char>, radix: nat) -> nat
    decreases s.len(),
{
    if s.len() == 0 {
        0
    } else {
        number_value(s.drop_last(), radix) * radix + digit_value(s.last(), radix).unwrap_or(0)
    }
}

/// The number written by `s` where it is one and no greater than `max`.
pub open spec fn bounded_number(s: Seq<char>, radix: nat, max: nat) -> Option<nat> {
    if is_number(s, radix) && number_value(s, radix) <= max {
        Some(number_value(s, radix))
    } else {
        None
    }
}

/// The pieces of `s` between the occurrences of `separator`; always at least one.
pub open spec fn split(s: Seq<char>, separator: char) -> Seq<Seq<char>>
    decreases s.len(),
{
    if s.len() == 0 {
        seq![Seq::empty()]
    } else {
        let before = split(s.drop_last(), separator);
        if s.last() == separator {
            before.push(Seq::empty())
        } else {
            before.drop_last().push(before.last().push(s.last()))
        }
    }
}

/// The decimal notation of `n`, without leading zeros.
pub open spec fn decimal(n: nat) -> Seq<char>
    decreases n,
{
    if n < 10 {
        seq![(48 + n) as char]
    } else {
        decimal(n / 10).push((48 + n % 10) as char)
    }
}

/// The first position at which `pattern` occurs in `s`.
pub open spec fn position(s: Seq<char>, pattern: Seq<char>) -> Option<nat>
    decreases s.len(),
{
    if pattern.is_prefix_of(s) {
        Some(0)
    } else if s.len() == 0 {
        None
    } else {
        match position(s.skip(1), pattern) {
            Some(i) => Some(i + 1),
            None => None,
        }
    }
}

/// What stands before and after the first occurrence of `pattern` in `s`.
pub open spec fn cut(s: Seq<char>, pattern: Seq<char>) -> Option<(Seq<char>, Seq<char>)> {
    match position(s, pattern) {
        Some(i) => Some((s.take(i as int), s.skip((i + pattern.len()) as int))),
        None => None,
    }
}

/// The characters of a string.
pub fn characters(s: &str) -> (chars: Vec<char>)
    ensures
        chars@ == s@,
{
    broadcast use vstd::string::axiom_spec_iter;

    let mut chars: Vec<char> = Vec::new();
    for c in it: s.chars()
        invariant
            it.seq() == s@,
            chars@ == it.seq().take(it.index()),
    {
        chars.push(c);
    }
    chars
}

/// Whether two strings hold the same characters.
pub fn same_text(a: &str, b: &str) -> (same: bool)
    ensures
        same == (a@ == b@),
{
    a.to_owned().eq(&b.to_owned())
}

/// The value of a digit, see [`digit_value`].
pub fn digit(c: char, radix: u32) -> (value: Option<u32>)
    ensures
        match value {
            Some(v) => digit_value(c, radix as nat) == Some(v as nat) && v < radix,
            None => digit_value(c, radix as nat) is None,
        },
{
    let code: u32 = c as u32;
    let value: u32 = if 48 <= code && code <= 57 {
        code - 48
    } else if 97 <= code && code <= 102 {
        code - 87
    } else if 65 <= code && code <= 70 {
        code - 55
    } else {
        return None;
    };
    if value < radix {
        Some(value)
    } else {
        None
    }
}

/// A longer row of digits writes no smaller number.
pub proof fn number_value_grows(s: Seq<char>, radix: nat, n: int)
    requires
        0 <= n <= s.len(),
        radix >= 1,
    ensures
        number_value(s.take(n), radix) <= number_value(s, radix),
    decreases s.len() - n,
{
    if n < s.len() {
        number_value_grows(s, radix, n + 1);
        let longer = s.take(n + 1);
        assert(longer.drop_last() == s.take(n));
        let shorter = number_value(s.take(n), radix);
        assert(shorter <= shorter * radix) by (nonlinear_arith)
            requires
                radix >= 1,
        ;
    } else {
        assert(s.take(n) == s);
    }
}

/// Reads a number of the radix that is no greater than `max`.
pub fn parse_number(s: &Vec<char>, radix: u32, max: u32) -> (number: Option<u32>)
    requires
        radix == 10 || radix == 16,
    ensures
        match number {
            Some(n) => bounded_number(s@, radix as nat, max as nat) == Some(n as nat),
            None => bounded_number(s@, radix as nat, max as nat) is None,
        },
{
    if s.len() == 0 {
        return None;
    }
    let mut value: u64 = 0;
    let mut i: usize = 0;
    assert(s@.take(0) =~= Seq::<char>::empty());
    while i < s.len()
        invariant
            radix == 10 || radix == 16,
            0 <= i <= s.len(),
            value <= max,
            value == number_value(s@.take(i as int), radix as nat),
            forall|j: int| 0 <= j < i ==> (#[trigger] digit_value(s@[j], radix as nat)) is Some,
        decreases s.len() - i,
    {
        let d: u32 = match digit(s[i], radix) {
            Some(d) => d,
            None => {
                return None;
            },
        };
        assert(s@.take(i + 1).drop_last() == s@.take(i as int));
        assert(value * radix <= 0xffff_ffff * 16) by (nonlinear_arith)
            requires
                value <= 0xffff_ffff,
                radix <= 16,
        ;
        value = value * (radix as u64) + d as u64;
        i = i + 1;
        if value > max as u64 {
            proof {
                number_value_grows(s@, radix as nat, i as int);
            }
            return None;
        }
    }
    assert(s@.take(i as int) == s@);
    Some(value as u32)
}

/// The pieces between separators, see [`split`].
pub fn pieces(s: &Vec<char>, separator: char) -> (pieces: Vec<Vec<char>>)
    ensures
        pieces@.map_values(|piece: Vec<char>| piece@) == split(s@, separator),
        pieces.len() >= 1,
{
    let mut pieces: Vec<Vec<char>> = Vec::new();
    let mut current: Vec<char> = Vec::new();
    let mut i: usize = 0;
    let ghost views = |piece: Vec<char>| piece@;
    assert(s@.take(0) =~= Seq::<char>::empty());
    assert(pieces@.map_values(views).push(current@) =~= seq![Seq::<char>::empty()]);
    while i < s.len()
        invariant
            0 <= i <= s.len(),
            views == (|piece: Vec<char>| piece@),
            pieces@.map_values(views).push(current@) == split(s@.take(i as int), separator),
        decreases s.len() - i,
    {
        let c: char = s[i];
        let ghost before = split(s@.take(i as int), separator);
        assert(s@.take(i + 1).drop_last() == s@.take(i as int));
        assert(before.drop_last() =~= pieces@.map_values(views));
        if c == separator {
            pieces.push(current);
            current = Vec::new();
            assert(pieces@.map_values(views) =~= before);
        } else {
            current.push(c);
        }
        i = i + 1;
    }
    assert(s@.take(i as int) == s@);
    let ghost done = pieces@;
    let ghost last = current@;
    pieces.push(current);
    assert(pieces@.map_values(views) =~= done.map_values(views).push(last));
    pieces
}

/// The characters of `s` from `start` up to `end`.
pub fn slice(s: &Vec<char>, start: usize, end: usize) -> (part: Vec<char>)
    requires
        start <= end <= s.len(),
    ensures
        part@ == s@.subrange(start as int, end as int),
{
    let mut part: Vec<char> = Vec::new();
    let mut i: usize = start;
    while i < end
        invariant
            start <= i <= end <= s.len(),
            part@ == s@.subrange(start as int, i as int),
        decreases end - i,
    {
        part.push(s[i]);
        i = i + 1;
    }
    part
}

/// Whether `pattern` stands in `s` at `start`.
fn occurs_at(s: &Vec<char>, start: usize, pattern: &Vec<char>) -> (occurs: bool)
    requires
        start <= s.len(),
    ensures
        occurs == pattern@.is_prefix_of(s@.skip(start as int)),
{
    if pattern.len() > s.len() - start {
        return false;
    }
    let mut i: usize = 0;
    while i < pattern.len()
        invariant
            start <= s.len(),
            0 <= i <= pattern.len() <= s.len() - start,
            forall|j: int| 0 <= j < i ==> pattern@[j] == s@.skip(start as int)[j],
        decreases pattern.len() - i,
    {
        if pattern[i] != s[start + i] {
            assert(pattern@[i as int] != s@.skip(start as int)[i as int]);
            assert(s@.skip(start as int).subrange(0, pattern@.len() as int)[i as int] == s@.skip(
                start as int,
            )[i as int]);
            return false;
        }
        i = i + 1;
    }
    assert(pattern@ =~= s@.skip(start as int).subrange(0, pattern@.len() as int));
    true
}

/// What stands before and after the first occurrence of a pattern, see [`cut`].
pub fn cut_at(s: &Vec<char>, pattern: &Vec<char>) -> (parts: Option<(Vec<char>, Vec<char>)>)
    ensures
        match parts {
            Some((before, after)) => cut(s@, pattern@) == Some((before@, after@)),
            None => cut(s@, pattern@) is None,
        },
{
    let mut i: usize = 0;
    assert(s@.skip(0) == s@);
    loop
        invariant
            0 <= i <= s.len(),
            position(s@, pattern@) == match position(s@.skip(i as int), pattern@) {
                Some(p) => Some((p + i) as nat),
                None => None,
            },
        decreases s.len() - i,
    {
        if occurs_at(s, i, pattern) {
            let before = slice(s, 0, i);
            let after = slice(s, i + pattern.len(), s.len());
            assert(before@ =~= s@.take(i as int));
            assert(after@ =~= s@.skip(i + pattern@.len()));
            return Some((before, after));
        }
        if i == s.len() {
            return None;
        }
        assert(s@.skip(i as int).skip(1) =~= s@.skip(i + 1));
        i = i + 1;
    }
}

/// The decimal digit of a number below ten.
fn digit_text(d: u64) -> (text: &'static str)
    requires
        d < 10,
    ensures
        text@ == seq![(48 + d) as char],
{
    proof {
        reveal_strlit("0");
        reveal_strlit("1");
        reveal_strlit("2");
        reveal_strlit("3");
        reveal_strlit("4");
        reveal_strlit("5");
        reveal_strlit("6");
        reveal_strlit("7");
        reveal_strlit("8");
        reveal_strlit("9");
    }
    match d {
        0 => "0",
        1 => "1",
        2 => "2",
        3 => "3",
        4 => "4",
        5 => "5",
        6 => "6",
        7 => "7",
        8 => "8",
        _ => "9",
    }
}

/// The decimal notation of a number, see [`decimal`].
pub fn decimal_text(n: u64) -> (text: String)
    ensures
        text@ == decimal(n as nat),
    decreases n,
{
    let mut text = if n < 10 {
        String::new()
    } else {
        decimal_text(n / 10)
    };
    text.append(digit_text(n % 10));
    text
}

/// Reading the decimal notation of a number gives back the number.
pub proof fn decimal_reads_back(n: nat)
    ensures
        is_number(decimal(n), 10),
        number_value(decimal(n), 10) == n,
    decreases n,
{
    let s = decimal(n);
    if n < 10 {
        assert(s.drop_last() =~= Seq::<char>::empty());
        assert(number_value(s.drop_last(), 10) == 0);
    } else {
        decimal_reads_back(n / 10);
        assert(s.drop_last() =~= decimal(n / 10));
        assert forall|i: int| 0 <= i < s.len() implies (#[trigger] digit_value(s[i], 10)) is Some by {
            if i < s.len() - 1 {
                assert(s[i] == decimal(n / 10)[i]);
                assert(digit_value(decimal(n / 10)[i], 10) is Some);
            }
        }
    }
}

/// The decimal notation of a number starts with a zero only where it is zero.
pub proof fn decimal_has_no_leading_zero(n: nat)
    ensures
        decimal(n).len() > 0,
        n > 0 ==> decimal(n)[0] != '0',
        n == 0 ==> decimal(n).len() == 1,
    decreases n,
{
    if n >= 10 {
        decimal_has_no_leading_zero(n / 10);
        assert(decimal(n)[0] == decimal(n / 10)[0]);
    }
}

/// A number contains no character that is not a digit.
pub proof fn number_has_no(s: Seq<char>, radix: nat, c: char)
    requires
        is_number(s, radix),
        digit_value(c, radix) is None,
    ensures
        !s.contains(c),
{
    assert forall|i: int| 0 <= i < s.len() implies s[i] != c by {
        assert(digit_value(s[i], radix) is Some);
    }
}

/// A text without a separator is one piece.
pub proof fn split_whole(s: Seq<char>, separator: char)
    requires
        !s.contains(separator),
    ensures
        split(s, separator) == seq![s],
    decreases s.len(),
{
    if s.len() == 0 {
        assert(s =~= Seq::<char>::empty());
    } else {
        let before = s.drop_last();
        assert forall|i: int| 0 <= i < before.len() implies before[i] != separator by {
            assert(before[i] == s[i]);
        }
        split_whole(before, separator);
        assert(s.last() != separator) by {
            assert(s[s.len() - 1] == s.last());
        }
        assert(before.push(s.last()) =~= s);
        assert(split(s, separator) =~= seq![s]);
    }
}

/// What follows the last separator is the last piece.
pub proof fn split_last(front: Seq<char>, last: Seq<char>, separator: char)
    requires
        !last.contains(separator),
    ensures
        split(front + seq![separator] + last, separator) == split(front, separator).push(last),
    decreases last.len(),
{
    let s = front + seq![separator] + last;
    if last.len() == 0 {
        assert(last =~= Seq::<char>::empty());
        assert(s.drop_last() =~= front);
    } else {
        let before = last.drop_last();
        assert forall|i: int| 0 <= i < before.len() implies before[i] != separator by {
            assert(before[i] == last[i]);
        }
        split_last(front, before, separator);
        assert(s.drop_last() =~= front + seq![separator] + before);
        assert(last.last() != separator) by {
            assert(last[last.len() - 1] == last.last());
        }
        assert(s.last() == last.last());
        assert(before.push(last.last()) =~= last);
        assert(split(front, separator).push(before).drop_last() =~= split(front, separator));
    }
}

/// The digits in their order, in either letter case; no other character is a digit.
pub proof fn digits_in_order(c: char, radix: nat, value: nat)
    ensures
        digit_value(c, radix) == Some(value) <==> (value < radix && value < 16 && (
        "0123456789abcdef"@[value as int] == c || "0123456789ABCDEF"@[value as int] == c)),
{
    reveal_strlit("0123456789abcdef");
    reveal_strlit("0123456789ABCDEF");
    if value < 16 {
        assert(value == 0 || value == 1 || value == 2 || value == 3 || value == 4 || value == 5
            || value == 6 || value == 7 || value == 8 || value == 9 || value == 10 || value == 11
            || value == 12 || value == 13 || value == 14 || value == 15);
    }
}

/// A decimal number is made of the ten digits, and of at least one of them.
pub proof fn decimal_numbers_are_digits(s: Seq<char>)
    ensures
        is_number(s, 10) <==> (s.len() > 0 && forall|i: int|
            0 <= i < s.len() ==> "0123456789"@.contains(#[trigger] s[i])),
{
    let digits = "0123456789"@;
    reveal_strlit("0123456789");
    reveal_strlit("0123456789abcdef");
    reveal_strlit("0123456789ABCDEF");
    assert forall|c: char| (#[trigger] digit_value(c, 10)) is Some <==> digits.contains(c) by {
        if digit_value(c, 10) is Some {
            let value = digit_value(c, 10)->0;
            assert(value == 0 || value == 1 || value == 2 || value == 3 || value == 4 || value == 5
                || value == 6 || value == 7 || value == 8 || value == 9);
            digits_in_order(c, 10, value);
            assert("0123456789abcdef"@[value as int] == c);
            assert(digits[value as int] == c);
        }
        if digits.contains(c) {
            let i = choose|i: int| 0 <= i < digits.len() && digits[i] == c;
            assert(i == 0 || i == 1 || i == 2 || i == 3 || i == 4 || i == 5 || i == 6 || i == 7 || i
                == 8 || i == 9);
        }
    }
    if is_number(s, 10) {
        assert forall|i: int| 0 <= i < s.len() implies digits.contains(#[trigger] s[i]) by {
            assert(digit_value(s[i], 10) is Some);
        }
    }
    if s.len() > 0 && forall|i: int| 0 <= i < s.len() ==> digits.contains(#[trigger] s[i]) {
        assert forall|i: int| 0 <= i < s.len() implies (#[trigger] digit_value(s[i], 10)) is Some by {
            assert(digits.contains(s[i]));
        }
    }
}

/// A single digit writes its own value.
pub proof fn one_digit_writes_its_value(c: char, radix: nat)
    requires
        digit_value(c, radix) is Some,
    ensures
        number_value(seq![c], radix) == digit_value(c, radix)->0,
{
    let s = seq![c];
    assert(s.drop_last() =~= Seq::<char>::empty());
    assert(number_value(s.drop_last(), radix) == 0);
    assert(0 * radix == 0) by (nonlinear_arith);
}

/// Digits count by their place: those in front of `back` count for the radix to the
/// power of its length.
pub proof fn digits_count_by_place(front: Seq<char>, back: Seq<char>, radix: nat)
    ensures
        number_value(front + back, radix) == number_value(front, radix) * vstd::arithmetic::power::pow(
            radix as int,
            back.len(),
        ) + number_value(back, radix),
    decreases back.len(),
{
    let r = radix as int;
    reveal(vstd::arithmetic::power::pow);
    if back.len() == 0 {
        assert(front + back =~= front);
    } else {
        let shorter = back.drop_last();
        digits_count_by_place(front, shorter, radix);
        assert((front + back).drop_last() =~= front + shorter);
        let f = number_value(front, radix) as int;
        let b = number_value(shorter, radix) as int;
        let p = vstd::arithmetic::power::pow(r, shorter.len());
        let d = digit_value(back.last(), radix).unwrap_or(0) as int;
        assert(vstd::arithmetic::power::pow(r, back.len()) == r * p);
        assert((f * p + b) * r + d == f * (r * p) + (b * r + d)) by (nonlinear_arith);
    }
}

/// The pieces with a separator between each two of them.
pub open spec fn joined(parts: Seq<Seq<char>>, separator: char) -> Seq<char>
    decreases parts.len(),
{
    if parts.len() == 0 {
        Seq::empty()
    } else if parts.len() == 1 {
        parts[0]
    } else {
        joined(parts.drop_last(), separator) + seq![separator] + parts.last()
    }
}

/// A text is its pieces with the separator between them, and no piece holds it.
pub proof fn pieces_join_again(s: Seq<char>, separator: char)
    ensures
        split(s, separator).len() >= 1,
        joined(split(s, separator), separator) == s,
        forall|i: int|
            0 <= i < split(s, separator).len() ==> !(#[trigger] split(s, separator)[i]).contains(
                separator,
            ),
    decreases s.len(),
{
    let parts = split(s, separator);
    if s.len() == 0 {
        assert(s =~= Seq::<char>::empty());
    } else {
        let before = split(s.drop_last(), separator);
        let last = s.last();
        pieces_join_again(s.drop_last(), separator);
        assert(s =~= s.drop_last().push(last));
        if last == separator {
            assert(parts.drop_last() =~= before);
            assert(joined(parts, separator) =~= joined(before, separator) + seq![separator]);
        } else {
            let grown = before.last().push(last);
            assert(parts.drop_last() =~= before.drop_last());
            if before.len() == 1 {
                assert(joined(parts, separator) =~= joined(before, separator).push(last));
            } else {
                assert(joined(parts, separator) =~= joined(before, separator).push(last));
            }
            assert(!grown.contains(separator)) by {
                assert(!before[before.len() - 1].contains(separator));
                assert forall|i: int| 0 <= i < grown.len() implies grown[i] != separator by {
                    if i < before.last().len() {
                        assert(grown[i] == before.last()[i]);
                        assert(before.last().contains(before.last()[i]));
                    }
                }
            }
            assert forall|i: int| 0 <= i < parts.len() implies !(#[trigger] parts[i]).contains(
                separator,
            ) by {
                if i < before.len() - 1 {
                    assert(parts[i] == before[i]);
                } else {
                    assert(parts[i] == grown);
                }
            }
        }
    }
}

/// Pieces that do not hold the separator come out again as they were joined.
pub proof fn joined_pieces_split(parts: Seq<Seq<char>>, separator: char)
    requires
        parts.len() > 0,
        forall|i: int| 0 <= i < parts.len() ==> !(#[trigger] parts[i]).contains(separator),
    ensures
        split(joined(parts, separator), separator) == parts,
    decreases parts.len(),
{
    if parts.len() == 1 {
        split_whole(parts[0], separator);
        assert(parts =~= seq![parts[0]]);
    } else {
        let before = parts.drop_last();
        assert forall|i: int| 0 <= i < before.len() implies !(#[trigger] before[i]).contains(
            separator,
        ) by {
            assert(before[i] == parts[i]);
        }
        joined_pieces_split(before, separator);
        assert(!parts[parts.len() - 1].contains(separator));
        split_last(joined(before, separator), parts.last(), separator);
        assert(parts =~= before.push(parts.last()));
    }
}

/// Where a pattern is first found, and that it is nowhere where it is not found.
proof fn position_is_the_first(s: Seq<char>, pattern: Seq<char>)
    ensures
        match position(s, pattern) {
            Some(i) => i + pattern.len() <= s.len() && pattern.is_prefix_of(s.skip(i as int))
                && forall|j: int| 0 <= j < i ==> !#[trigger] pattern.is_prefix_of(s.skip(j)),
            None => forall|j: int|
                0 <= j <= s.len() ==> !#[trigger] pattern.is_prefix_of(s.skip(j)),
        },
    decreases s.len(),
{
    assert(s.skip(0) =~= s);
    if pattern.is_prefix_of(s) || s.len() == 0 {
        assert forall|j: int| 0 <= j <= s.len() && !pattern.is_prefix_of(s) implies !#[trigger] pattern.is_prefix_of(
        s.skip(j)) by {
            if s.len() == 0 {
                assert(j == 0);
            }
        }
    } else {
        let rest = s.skip(1);
        position_is_the_first(rest, pattern);
        assert forall|j: int| 1 <= j <= s.len() implies #[trigger] s.skip(j) == rest.skip(j - 1) by {
            assert(s.skip(j) =~= rest.skip(j - 1));
        }
        match position(rest, pattern) {
            Some(i) => {
                assert(s.skip((i + 1) as int) == rest.skip(i as int));
                assert forall|j: int| 0 <= j < i + 1 implies !#[trigger] pattern.is_prefix_of(
                    s.skip(j),
                ) by {
                    if j > 0 {
                        assert(!pattern.is_prefix_of(rest.skip(j - 1)));
                    }
                }
            },
            None => {
                assert forall|j: int| 0 <= j <= s.len() implies !#[trigger] pattern.is_prefix_of(
                    s.skip(j),
                ) by {
                    if j > 0 {
                        assert(!pattern.is_prefix_of(rest.skip(j - 1)));
                    }
                }
            },
        }
    }
}

/// A text that is cut is what stood before, the pattern and what stood after; the
/// pattern stands nowhere earlier, and nowhere at all in a text that is not cut.
pub proof fn cut_is_at_the_first(s: Seq<char>, pattern: Seq<char>)
    ensures
        match cut(s, pattern) {
            Some((before, after)) => s == before + pattern + after && forall|j: int|
                0 <= j < before.len() ==> !#[trigger] pattern.is_prefix_of(s.skip(j)),
            None => forall|j: int|
                0 <= j <= s.len() ==> !#[trigger] pattern.is_prefix_of(s.skip(j)),
        },
{
    position_is_the_first(s, pattern);
    match position(s, pattern) {
        Some(i) => {
            let rest = s.skip(i as int);
            assert(rest.subrange(0, pattern.len() as int) =~= pattern);
            assert forall|k: int| 0 <= k < pattern.len() implies s[i + k] == pattern[k] by {
                assert(rest[k] == rest.subrange(0, pattern.len() as int)[k]);
            }
            assert(s =~= s.take(i as int) + pattern + s.skip((i + pattern.len()) as int));
        },
        None => {},
    }
}

/// A text is cut at a pattern that stands nowhere earlier in it.
pub proof fn first_occurrence_is_cut(before: Seq<char>, pattern: Seq<char>, after: Seq<char>)
    requires
        forall|j: int|
            0 <= j < before.len() ==> !#[trigger] pattern.is_prefix_of(
                (before + pattern + after).skip(j),
            ),
    ensures
        cut(before + pattern + after, pattern) == Some((before, after)),
{
    let s = before + pattern + after;
    let n = before.len() as int;
    position_is_the_first(s, pattern);
    assert(s.skip(n) =~= pattern + after);
    assert(pattern.is_prefix_of(s.skip(n))) by {
        assert(pattern =~= (pattern + after).subrange(0, pattern.len() as int));
    }
    match position(s, pattern) {
        Some(i) => {
            if i < n {
                assert(!pattern.is_prefix_of(s.skip(i as int)));
            } else if i > n {
                assert(!pattern.is_prefix_of(s.skip(n)));
            }
            assert(s.take(n) =~= before);
            assert(s.skip(n + pattern.len()) =~= after);
        },
        None => {
            assert(!pattern.is_prefix_of(s.skip(n)));
        },
    }
}

/// A hexadecimal number is made of the sixteen digits in either letter case, and of at
/// least one of them.
pub proof fn hexadecimal_numbers_are_digits(s: Seq<char>)
    ensures
        is_number(s, 16) <==> (s.len() > 0 && forall|i: int|
            0 <= i < s.len() ==> "0123456789abcdefABCDEF"@.contains(#[trigger] s[i])),
{
    let digits = "0123456789abcdefABCDEF"@;
    reveal_strlit("0123456789abcdefABCDEF");
    reveal_strlit("0123456789abcdef");
    reveal_strlit("0123456789ABCDEF");
    assert forall|c: char| (#[trigger] digit_value(c, 16)) is Some <==> digits.contains(c) by {
        if digit_value(c, 16) is Some {
            let value = digit_value(c, 16)->0;
            digits_in_order(c, 16, value);
            let i = value as int;
            assert(i == 0 || i == 1 || i == 2 || i == 3 || i == 4 || i == 5 || i == 6 || i == 7 || i
                == 8 || i == 9 || i == 10 || i == 11 || i == 12 || i == 13 || i == 14 || i == 15);
            if "0123456789abcdef"@[i] == c {
                assert(digits[i] == c);
            } else {
                assert(digits[i + 6] == c);
            }
        }
        if digits.contains(c) {
            let i = choose|i: int| 0 <= i < digits.len() && digits[i] == c;
            assert(i == 0 || i == 1 || i == 2 || i == 3 || i == 4 || i == 5 || i == 6 || i == 7 || i
                == 8 || i == 9 || i == 10 || i == 11 || i == 12 || i == 13 || i == 14 || i == 15 || i
                == 16 || i == 17 || i == 18 || i == 19 || i == 20 || i == 21);
        }
    }
    if is_number(s, 16) {
        assert forall|i: int| 0 <= i < s.len() implies digits.contains(#[trigger] s[i]) by {
            assert(digit_value(s[i], 16) is Some);
        }
    }
    if s.len() > 0 && forall|i: int| 0 <= i < s.len() ==> digits.contains(#[trigger] s[i]) {
        assert forall|i: int| 0 <= i < s.len() implies (#[trigger] digit_value(s[i], 16)) is Some by {
            assert(digits.contains(s[i]));
        }
    }
}

/// Joined pieces hold no character that neither a piece nor the separator is.
pub proof fn joined_has_no(parts: Seq<Seq<char>>, separator: char, c: char)
    requires
        c != separator,
        forall|i: int| 0 <= i < parts.len() ==> !(#[trigger] parts[i]).contains(c),
    ensures
        !joined(parts, separator).contains(c),
    decreases parts.len(),
{
    if parts.len() == 1 {
        assert(!parts[0].contains(c));
    } else if parts.len() > 1 {
        let before = parts.drop_last();
        assert forall|i: int| 0 <= i < before.len() implies !(#[trigger] before[i]).contains(c) by {
            assert(before[i] == parts[i]);
        }
        joined_has_no(before, separator, c);
        assert(!parts[parts.len() - 1].contains(c));
        let front = joined(before, separator);
        let s = joined(parts, separator);
        assert forall|i: int| 0 <= i < s.len() implies s[i] != c by {
            if i < front.len() {
                assert(s[i] == front[i]);
                assert(front.contains(front[i]));
            } else if i > front.len() {
                assert(s[i] == parts.last()[i - front.len() - 1]);
                assert(parts.last().contains(parts.last()[i - front.len() - 1]));
            }
        }
    }
}

/// Pieces that are not empty and do not hold the separator are joined by single
/// separators, none of them at either end.
pub proof fn joined_is_tight(parts: Seq<Seq<char>>, separator: char)
    requires
        parts.len() > 0,
        forall|i: int|
            0 <= i < parts.len() ==> (#[trigger] parts[i]).len() > 0 && !parts[i].contains(separator),
    ensures
        joined(parts, separator).len() > 0,
        joined(parts, separator)[0] != separator,
        joined(parts, separator).last() != separator,
        forall|j: int|
            0 <= j < joined(parts, separator).len() - 1 ==> !(#[trigger] joined(parts, separator)[j]
                == separator && joined(parts, separator)[j + 1] == separator),
    decreases parts.len(),
{
    let s = joined(parts, separator);
    let last = parts[parts.len() - 1];
    assert(last.len() > 0 && !last.contains(separator));
    assert(last.contains(last[0]));
    assert(last.contains(last[last.len() - 1]));
    if parts.len() == 1 {
        assert forall|j: int| 0 <= j < s.len() - 1 implies !(#[trigger] s[j] == separator && s[j + 1]
            == separator) by {
            assert(last.contains(last[j]));
        }
    } else {
        let before = parts.drop_last();
        assert forall|i: int| 0 <= i < before.len() implies (#[trigger] before[i]).len() > 0
            && !before[i].contains(separator) by {
            assert(before[i] == parts[i]);
        }
        joined_is_tight(before, separator);
        let front = joined(before, separator);
        assert(s == front + seq![separator] + last);
        assert(s[0] == front[0]);
        assert(s.last() == last.last());
        assert forall|j: int| 0 <= j < s.len() - 1 implies !(#[trigger] s[j] == separator && s[j + 1]
            == separator) by {
            if j < front.len() - 1 {
                assert(s[j] == front[j] && s[j + 1] == front[j + 1]);
            } else if j == front.len() - 1 {
                assert(s[j] == front.last());
            } else if j == front.len() {
                assert(s[j + 1] == last[0]);
            } else {
                assert(s[j] == last[j - front.len() - 1]);
                assert(last.contains(last[j - front.len() - 1]));
            }
        }
    }
}

/// Two or more pieces hold the separator once they are joined.
pub proof fn joined_has_separator(parts: Seq<Seq<char>>, separator: char)
    requires
        parts.len() > 1,
    ensures
        joined(parts, separator).contains(separator),
{
    let front = joined(parts.drop_last(), separator);
    assert(joined(parts, separator)[front.len() as int] == separator);
}

} // verus!
