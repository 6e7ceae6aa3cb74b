//! Characters and character sequences: the small vocabulary that the parser
//! and the renderer share.

use vstd::prelude::*;

verus! {

/// The characters of `s`, in order.
pub fn chars_of(s: &str) -> (chars: Vec<char>)
    ensures
        chars@ == s@,
{
    let mut chars: Vec<char> = Vec::new();
    for c in it: s.chars()
        invariant
            it.seq() == s@,
            chars@ == it.seq().take(it.index() as int),
    {
        chars.push(c);
    }
    chars
}

/// The string made of `chars[from..to]`.
pub(crate) fn string_of(chars: &Vec<char>, from: usize, to: usize) -> (s: String)
    requires
        from <= to <= chars.len(),
    ensures
        s@ == chars@.subrange(from as int, to as int),
{
    let mut s = String::new();
    let mut i: usize = from;
    while i < to
        invariant
            from <= i <= to <= chars.len(),
            s@ == chars@.subrange(from as int, i as int),
        decreases to - i,
    {
        s.push(chars[i]);
        i += 1;
    }
    s
}

/// Whether `chars` spells exactly `word`.
pub fn spells(chars: &Vec<char>, word: &str) -> (same: bool)
    ensures
        same == (chars@ == word@),
{
    let mut same = true;
    let mut i: usize = 0;
    for c in it: word.chars()
        invariant
            it.seq() == word@,
            i <= chars.len(),
            same ==> i == it.index(),
            same == (it.index() <= chars.len() && forall|j: int|
                0 <= j < it.index() ==> chars@[j] == word@[j]),
    {
        if same {
            if i < chars.len() && chars[i] == c {
                i += 1;
            } else {
                same = false;
            }
        }
    }
    assert(same && i == chars.len() ==> chars@ =~= word@);
    same && i == chars.len()
}

/// Whether `c` is white space: a code point with the Unicode property
/// `White_Space`.
pub open spec fn is_whitespace(c: char) -> bool {
    let n = c as u32;
    ||| 0x09 <= n <= 0x0D
    ||| n == 0x20
    ||| n == 0x85
    ||| n == 0xA0
    ||| n == 0x1680
    ||| 0x2000 <= n <= 0x200A
    ||| n == 0x2028
    ||| n == 0x2029
    ||| n == 0x202F
    ||| n == 0x205F
    ||| n == 0x3000
}

/// Tells white space from other characters.
pub fn whitespace(c: char) -> (b: bool)
    ensures
        b == is_whitespace(c),
{
    let n: u32 = c as u32;
    (0x09 <= n && n <= 0x0D) || n == 0x20 || n == 0x85 || n == 0xA0 || n == 0x1680 || (0x2000 <= n
        && n <= 0x200A) || n == 0x2028 || n == 0x2029 || n == 0x202F || n == 0x205F || n == 0x3000
}

/// `s` without the white space it starts with.
pub open spec fn trim_start(s: Seq<char>) -> Seq<char>
    decreases s.len(),
{
    if s.len() > 0 && is_whitespace(s[0]) {
        trim_start(s.drop_first())
    } else {
        s
    }
}

/// `s` without the white space it ends with.
pub open spec fn trim_end(s: Seq<char>) -> Seq<char>
    decreases s.len(),
{
    if s.len() > 0 && is_whitespace(s.last()) {
        trim_end(s.drop_last())
    } else {
        s
    }
}

/// `s` without white space at either end.
pub open spec fn trimmed(s: Seq<char>) -> Seq<char> {
    trim_end(trim_start(s))
}

/// A sequence that neither starts nor ends with white space is its own
/// trimmed form.
pub proof fn trimmed_is_identity(s: Seq<char>)
    requires
        s.len() > 0 ==> !is_whitespace(s[0]) && !is_whitespace(s.last()),
    ensures
        trimmed(s) == s,
{
}

/// Removes the white space at both ends of `s`.
pub fn trim(s: &str) -> (t: String)
    ensures
        t@ == trimmed(s@),
{
    let chars = chars_of(s);
    let mut start: usize = 0;
    assert(chars@.subrange(0, chars.len() as int) == chars@);
    while start < chars.len() && whitespace(chars[start])
        invariant
            start <= chars.len(),
            trim_start(chars@) == trim_start(chars@.subrange(start as int, chars.len() as int)),
        decreases chars.len() - start,
    {
        assert(chars@.subrange(start as int, chars.len() as int).drop_first() == chars@.subrange(
            start + 1,
            chars.len() as int,
        ));
        start += 1;
    }
    let mut end: usize = chars.len();
    while end > start && whitespace(chars[end - 1])
        invariant
            start <= end <= chars.len(),
            trimmed(chars@) == trim_end(chars@.subrange(start as int, end as int)),
        decreases end - start,
    {
        assert(chars@.subrange(start as int, end as int).drop_last() == chars@.subrange(
            start as int,
            end - 1,
        ));
        end -= 1;
    }
    string_of(&chars, start, end)
}

/// The character that writes the digit `d`, for `d` below ten.
pub open spec fn digit(d: nat) -> char {
    (0x30 + d) as char
}

/// The decimal notation of `n`, without sign or leading zeros.
pub open spec fn decimal(n: nat) -> Seq<char>
    decreases n,
{
    if n < 10 {
        seq![digit(n)]
    } else {
        decimal(n / 10).push(digit(n % 10))
    }
}

/// Appends the decimal notation of `n` to `out`.
pub fn append_decimal(out: &mut String, n: u16)
    ensures
        final(out)@ == old(out)@ + decimal(n as nat),
    decreases n,
{
    if n >= 10 {
        append_decimal(out, n / 10);
    }
    let d: u8 = (n % 10) as u8;
    out.push((0x30u8 + d) as char);
}

/// What the character `c` is worth as a digit in base `radix`, for a base of
/// at most 36: `0` to `9` count as themselves, the letters from `a` or `A`
/// on as ten and more.
pub open spec fn digit_value(c: char, radix: nat) -> Option<nat> {
    let n = c as u32;
    let v: int = if 0x30 <= n <= 0x39 {
        n - 0x30
    } else if 0x61 <= n <= 0x7A {
        n - 0x61 + 10
    } else if 0x41 <= n <= 0x5A {
        n - 0x41 + 10
    } else {
        36
    };
    if v < radix {
        Some(v as nat)
    } else {
        None
    }
}

/// What `c` is worth as a digit in base `radix`.
fn digit_of(c: char, radix: u32) -> (value: Option<u32>)
    requires
        radix <= 36,
    ensures
        match digit_value(c, radix as nat) {
            Some(v) => value == Some(v as u32),
            None => value is None,
        },
{
    let n: u32 = c as u32;
    let v: u32 = if 0x30 <= n && n <= 0x39 {
        n - 0x30
    } else if 0x61 <= n && n <= 0x7A {
        n - 0x61 + 10
    } else if 0x41 <= n && n <= 0x5A {
        n - 0x41 + 10
    } else {
        36
    };
    if v < radix {
        Some(v)
    } else {
        None
    }
}

/// Whether every character of `s` is a digit in base `radix`.
pub open spec fn all_digits(s: Seq<char>, radix: nat) -> bool {
    forall|i: int| 0 <= i < s.len() ==> (#[trigger] digit_value(s[i], radix)) is Some
}

/// The number that the digits `s` write in base `radix`.
pub open spec fn digits_value(s: Seq<char>, radix: nat) -> nat
    decreases s.len(),
{
    if s.len() == 0 {
        0
    } else {
        digits_value(s.drop_last(), radix) * radix + digit_value(s.last(), radix).unwrap_or(0)
    }
}

/// The natural number that `s` writes in base `radix`: an optional `+` and
/// at least one digit, nothing else.
pub open spec fn unsigned(s: Seq<char>, radix: nat) -> Option<nat> {
    let digits = if s.len() > 0 && s[0] == '+' {
        s.drop_first()
    } else {
        s
    };
    if digits.len() > 0 && all_digits(digits, radix) {
        Some(digits_value(digits, radix))
    } else {
        None
    }
}

/// `unsigned`, for numbers up to `max` only.
pub open spec fn unsigned_up_to(s: Seq<char>, radix: nat, max: nat) -> Option<nat> {
    match unsigned(s, radix) {
        Some(n) if n <= max => Some(n),
        _ => None,
    }
}

/// A number is at least what any beginning of its digits writes.
proof fn digits_value_grows(s: Seq<char>, k: int, radix: nat)
    requires
        0 <= k <= s.len(),
        radix >= 1,
    ensures
        digits_value(s.take(k), radix) <= digits_value(s, radix),
    decreases s.len() - k,
{
    if k == s.len() {
        assert(s.take(k) == s);
    } else {
        digits_value_grows(s.drop_last(), k, radix);
        assert(s.drop_last().take(k) == s.take(k));
        assert(digits_value(s.drop_last(), radix) * radix >= digits_value(s.drop_last(), radix))
            by (nonlinear_arith)
            requires
                radix >= 1,
        ;
    }
}

/// Reads `s` as a natural number in base `radix`, up to `max`.
pub(crate) fn parse_unsigned(s: &str, radix: u32, max: u64) -> (r: Option<u64>)
    requires
        2 <= radix <= 36,
    ensures
        match unsigned_up_to(s@, radix as nat, max as nat) {
            Some(n) => r == Some(n as u64),
            None => r is None,
        },
{
    let chars = chars_of(s);
    let first: usize = if chars.len() > 0 && chars[0] == '+' {
        1
    } else {
        0
    };
    if first == chars.len() {
        return None;
    }
    let ghost digits = chars@.subrange(first as int, chars.len() as int);
    let mut value: u64 = 0;
    let mut i: usize = first;
    while i < chars.len()
        invariant
            2 <= radix <= 36,
            first <= i <= chars.len(),
            digits == chars@.subrange(first as int, chars.len() as int),
            digits.len() > 0,
            digits == if s@.len() > 0 && s@[0] == '+' {
                s@.drop_first()
            } else {
                s@
            },
            all_digits(digits.take(i - first), radix as nat),
            value == digits_value(digits.take(i - first), radix as nat),
            value <= max,
        decreases chars.len() - i,
    {
        assert(digits[i - first] == chars@[i as int]);
        let v: u32 = match digit_of(chars[i], radix) {
            Some(v) => v,
            None => {
                return None;
            },
        };
        assert(digits.take(i - first + 1).drop_last() == digits.take(i - first));
        if max < v as u64 || value > (max - v as u64) / (radix as u64) {
            proof {
                assert(value * radix + v > max) by (nonlinear_arith)
                    requires
                        value > (max - v) / (radix as int) || max < v,
                        radix >= 2,
                        v >= 0,
                        value >= 0,
                ;
                digits_value_grows(digits, i - first + 1, radix as nat);
            }
            return None;
        }
        assert(value * radix + v <= max) by (nonlinear_arith)
            requires
                value <= (max - v) / (radix as int),
                radix >= 2,
                v <= max,
        ;
        value = value * (radix as u64) + v as u64;
        i += 1;
    }
    assert(digits.take(i - first) == digits);
    Some(value)
}

/// The items of `items` written one after the other, with `sep` between each
/// two neighbours.
pub open spec fn joined(items: Seq<Seq<char>>, sep: Seq<char>) -> Seq<char>
    decreases items.len(),
{
    if items.len() == 0 {
        Seq::empty()
    } else if items.len() == 1 {
        items[0]
    } else {
        items[0] + sep + joined(items.drop_first(), sep)
    }
}

/// With nothing between the items, joining them is writing them one after
/// the other.
pub proof fn joined_with_nothing(items: Seq<Seq<char>>)
    ensures
        joined(items, Seq::empty()) == items.flatten(),
    decreases items.len(),
{
    if items.len() == 1 {
        assert(items.drop_first().flatten() == Seq::<char>::empty());
    } else if items.len() > 1 {
        joined_with_nothing(items.drop_first());
    }
}

/// What is left of `items` without its first `n` items; nothing where it has
/// no more than `n`.
pub open spec fn dropped(items: Seq<Seq<char>>, n: nat) -> Seq<Seq<char>> {
    if n <= items.len() {
        items.skip(n as int)
    } else {
        Seq::empty()
    }
}

} // verus!
