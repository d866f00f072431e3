//! Reading what the player typed: a move, or the answer to the offer of a rematch.
//!
//! A line is taken as the sequence of its characters. White space at both ends
//! is set aside first; what is left is either an unsigned decimal number or a
//! yes/no answer.

use vstd::prelude::*;

verus! {

/// White space as `char::is_whitespace` has it: the code points that
/// Unicode classes as `White_Space`.
pub open spec fn is_space(c: char) -> bool {
    let u = c as u32;
    ||| 0x09 <= u <= 0x0D
    ||| u == 0x20
    ||| u == 0x85
    ||| u == 0xA0
    ||| u == 0x1680
    ||| 0x2000 <= u <= 0x200A
    ||| u == 0x2028
    ||| u == 0x2029
    ||| u == 0x202F
    ||| u == 0x205F
    ||| u == 0x3000
}

/// `s` without the white space it begins with.
pub open spec fn trim_start(s: Seq<char>) -> Seq<char>
    decreases s.len(),
{
    if s.len() > 0 && is_space(s[0]) {
        trim_start(s.drop_first())
    } else {
        s
    }
}

/// `s` without the white space it ends with.
pub open spec fn trim_end(s: Seq<char>) -> Seq<char>
    decreases s.len(),
{
    if s.len() > 0 && is_space(s.last()) {
        trim_end(s.drop_last())
    } else {
        s
    }
}

/// `s` without white space at either end.
pub open spec fn trimmed(s: Seq<char>) -> Seq<char> {
    trim_end(trim_start(s))
}

/// One of the ten ASCII digits.
pub open spec fn is_digit(c: char) -> bool {
    '0' <= c <= '9'
}

/// The number a digit stands for.
pub open spec fn digit_value(c: char) -> nat {
    (c as int - '0' as int) as nat
}

/// Every character of `s` is a digit.
pub open spec fn all_digits(s: Seq<char>) -> bool {
    forall|i: int| 0 <= i < s.len() ==> is_digit(#[trigger] s[i])
}

/// The number that the digits of `s` write in base ten.
pub open spec fn decimal_value(s: Seq<char>) -> nat
    decreases s.len(),
{
    if s.len() == 0 {
        0
    } else {
        10 * decimal_value(s.drop_last()) + digit_value(s.last())
    }
}

/// `s` without the plus sign that may stand before a number.
pub open spec fn unsigned_part(s: Seq<char>) -> Seq<char> {
    if s.len() > 0 && s[0] == '+' {
        s.drop_first()
    } else {
        s
    }
}

/// The unsigned integer that `s` writes: an optional plus sign, then one or
/// more digits, whose value fits in 32 bits. Anything else writes none.
pub open spec fn parsed_unsigned(s: Seq<char>) -> Option<u32> {
    let digits = unsigned_part(s);
    if digits.len() > 0 && all_digits(digits) && decimal_value(digits) <= u32::MAX {
        Some(decimal_value(digits) as u32)
    } else {
        None
    }
}

/// The number on a line of input, white space around it set aside.
pub open spec fn parsed_number(text: Seq<char>) -> Option<u32> {
    parsed_unsigned(trimmed(text))
}

/// A letter of `A..=Z` in lower case, any other character as it is.
pub open spec fn lower(c: char) -> char {
    if 'A' <= c <= 'Z' {
        (c as int + 32) as char
    } else {
        c
    }
}

/// The line says yes: it reads `y` or `yes`, in either case of each letter,
/// with white space around it set aside.
pub open spec fn affirmative(text: Seq<char>) -> bool {
    let word = trimmed(text);
    ||| word.len() == 1 && lower(word[0]) == 'y'
    ||| word.len() == 3 && lower(word[0]) == 'y' && lower(word[1]) == 'e' && lower(word[2]) == 's'
}

/// The answer to the offer of a rematch, where `None` stands for a line that
/// could not be read: only a line that says yes accepts.
pub open spec fn accepts_rematch(answer: Option<Seq<char>>) -> bool {
    match answer {
        Some(text) => affirmative(text),
        None => false,
    }
}

/// Where `s` begins with `k` characters of white space and goes on with
/// something else, `trim_start` drops exactly those `k`.
proof fn lemma_trim_start(s: Seq<char>, k: int)
    requires
        0 <= k <= s.len(),
        forall|i: int| 0 <= i < k ==> is_space(#[trigger] s[i]),
        k < s.len() ==> !is_space(s[k]),
    ensures
        trim_start(s) == s.subrange(k, s.len() as int),
    decreases k,
{
    if k > 0 {
        lemma_trim_start(s.drop_first(), k - 1);
    }
}

/// Where `s` ends with white space from index `k` on and the character before
/// is something else, `trim_end` keeps exactly the first `k`.
proof fn lemma_trim_end(s: Seq<char>, k: int)
    requires
        0 <= k <= s.len(),
        forall|i: int| k <= i < s.len() ==> is_space(#[trigger] s[i]),
        k > 0 ==> !is_space(s[k - 1]),
    ensures
        trim_end(s) == s.subrange(0, k),
    decreases s.len() - k,
{
    if k < s.len() {
        lemma_trim_end(s.drop_last(), k);
    }
}

/// Digits written after a number never make it smaller.
proof fn lemma_value_grows(s: Seq<char>, k: int)
    requires
        0 <= k <= s.len(),
    ensures
        decimal_value(s.subrange(0, k)) <= decimal_value(s),
    decreases s.len() - k,
{
    if k == s.len() {
        assert(s.subrange(0, k) =~= s);
    } else {
        let rest = s.drop_last();
        lemma_value_grows(rest, k);
        assert(rest.subrange(0, k) =~= s.subrange(0, k));
    }
}

/// Whether `c` is white space.
pub fn is_whitespace(c: char) -> (space: bool)
    ensures
        space == is_space(c),
{
    let u: u32 = c as u32;
    (0x09 <= u && u <= 0x0D) || u == 0x20 || u == 0x85 || u == 0xA0 || u == 0x1680 || (0x2000 <= u
        && u <= 0x200A) || u == 0x2028 || u == 0x2029 || u == 0x202F || u == 0x205F || u == 0x3000
}

/// The characters of `text`, one by one.
fn chars_of(text: &str) -> (chars: Vec<char>)
    ensures
        chars@ == text@,
{
    let mut chars: Vec<char> = Vec::new();
    for c in it: text.chars()
        invariant
            chars@ == it.seq().take(it.index() as int),
            it.seq() == text@,
    {
        chars.push(c);
    }
    chars
}

/// Where `chars` stops beginning with, and starts ending with, white space.
fn trim_bounds(chars: &Vec<char>) -> (bounds: (usize, usize))
    ensures
        bounds.0 <= bounds.1 <= chars.len(),
        chars@.subrange(bounds.0 as int, bounds.1 as int) == trimmed(chars@),
{
    let mut start: usize = 0;
    while start < chars.len() && is_whitespace(chars[start])
        invariant
            start <= chars.len(),
            forall|i: int| 0 <= i < start ==> is_space(#[trigger] chars@[i]),
        decreases chars.len() - start,
    {
        start += 1;
    }
    let mut end: usize = chars.len();
    while end > start && is_whitespace(chars[end - 1])
        invariant
            start <= end <= chars.len(),
            forall|i: int| end <= i < chars.len() ==> is_space(#[trigger] chars@[i]),
        decreases end,
    {
        end -= 1;
    }
    proof {
        let s = chars@;
        let t = s.subrange(start as int, s.len() as int);
        lemma_trim_start(s, start as int);
        lemma_trim_end(t, end - start);
    }
    (start, end)
}

/// Reads a line as an unsigned integer, as `str::trim` followed by
/// `str::parse::<u32>` would: `None` where the line does not write one.
pub fn parse_number(text: &str) -> (number: Option<u32>)
    ensures
        number == parsed_number(text@),
{
    let chars = chars_of(text);
    let (start, end) = trim_bounds(&chars);
    let first: usize = if start < end && chars[start] == '+' {
        start + 1
    } else {
        start
    };
    let ghost digits = chars@.subrange(first as int, end as int);
    if first == end {
        return None;
    }
    let mut value: u64 = 0;
    let mut index: usize = first;
    while index < end
        invariant
            first <= index <= end <= chars.len(),
            digits == chars@.subrange(first as int, end as int),
            digits == unsigned_part(trimmed(text@)),
            all_digits(digits.subrange(0, index - first)),
            value == decimal_value(digits.subrange(0, index - first)),
            value <= u32::MAX,
        decreases end - index,
    {
        let c: char = chars[index];
        let ghost before = digits.subrange(0, index - first);
        let ghost after = digits.subrange(0, index - first + 1);
        assert(after.drop_last() =~= before);
        if !('0' <= c && c <= '9') {
            assert(!is_digit(digits[index - first]));
            return None;
        }
        let digit: u64 = (c as u32 - '0' as u32) as u64;
        value = value * 10 + digit;
        if value > u32::MAX as u64 {
            proof {
                lemma_value_grows(digits, index - first + 1);
            }
            return None;
        }
        index += 1;
    }
    assert(digits.subrange(0, end - first) =~= digits);
    Some(value as u32)
}

/// `c` in lower case if it is a letter of `A..=Z`, else `c` itself.
fn to_lower(c: char) -> (folded: char)
    ensures
        folded == lower(c),
{
    if 'A' <= c && c <= 'Z' {
        (c as u8 + 32) as char
    } else {
        c
    }
}

/// Whether a line says yes.
pub fn is_affirmative(text: &str) -> (yes: bool)
    ensures
        yes == affirmative(text@),
{
    let chars = chars_of(text);
    let (start, end) = trim_bounds(&chars);
    if end - start == 1 {
        to_lower(chars[start]) == 'y'
    } else if end - start == 3 {
        to_lower(chars[start]) == 'y' && to_lower(chars[start + 1]) == 'e' && to_lower(
            chars[start + 2],
        ) == 's'
    } else {
        false
    }
}

/// Whether the player takes the offer of a rematch. `None` stands for an
/// answer that could not be read, which declines like any answer but yes.
pub fn wants_rematch(answer: Option<&str>) -> (rematch: bool)
    ensures
        rematch == accepts_rematch(
            match answer {
                Some(text) => Some(text@),
                None => None,
            },
        ),
{
    match answer {
        Some(text) => is_affirmative(text),
        None => false,
    }
}

} // verus!
