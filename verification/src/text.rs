//! Text as sequences of characters: the small vocabulary of prefixes, digit
//! runs, decimal numbers and ASCII case that the URL and markup rules are
//! written in.

use vstd::prelude::*;

verus! {

/// One of the ten ASCII digits.
pub open spec fn is_ascii_digit(c: char) -> bool {
    '0' <= c && c <= '9'
}

/// The number that an ASCII digit stands for.
pub open spec fn digit_value(c: char) -> nat {
    (c as u8 - 48) as nat
}

/// The ASCII digit that stands for a number below ten.
pub open spec fn digit_char(d: nat) -> char {
    (d + 48) as u8 as char
}

/// Every character is an ASCII digit.
pub open spec fn all_digits(s: Seq<char>) -> bool {
    forall|i: int| 0 <= i < s.len() ==> is_ascii_digit(#[trigger] s[i])
}

/// The number that a run of ASCII digits denotes in base ten; leading zeros
/// are allowed and the empty run denotes zero.
pub open spec fn decimal_value(digits: Seq<char>) -> nat
    decreases digits.len(),
{
    if digits.len() == 0 {
        0
    } else {
        10 * decimal_value(digits.drop_last()) + digit_value(digits.last())
    }
}

/// Reading a whole text as a `u64`: the text must be a non-empty run of ASCII
/// digits whose value fits.
pub open spec fn decimal_u64(s: Seq<char>) -> Option<u64> {
    if s.len() > 0 && all_digits(s) && decimal_value(s) <= u64::MAX {
        Some(decimal_value(s) as u64)
    } else {
        None
    }
}

/// The base-ten digits of a number, without leading zeros.
pub open spec fn decimal_digits(n: nat) -> Seq<char>
    decreases n,
{
    if n < 10 {
        seq![digit_char(n)]
    } else {
        decimal_digits(n / 10).push(digit_char(n % 10))
    }
}

/// The longest run of ASCII digits that a text starts with.
pub open spec fn leading_digits(s: Seq<char>) -> Seq<char>
    decreases s.len(),
{
    if s.len() > 0 && is_ascii_digit(s.first()) {
        seq![s.first()] + leading_digits(s.drop_first())
    } else {
        Seq::empty()
    }
}

/// The longest run of ASCII digits that a text ends with.
pub open spec fn trailing_digits(s: Seq<char>) -> Seq<char>
    decreases s.len(),
{
    if s.len() > 0 && is_ascii_digit(s.last()) {
        trailing_digits(s.drop_last()).push(s.last())
    } else {
        Seq::empty()
    }
}

/// A character with the Unicode property White_Space.
pub open spec fn is_whitespace(c: char) -> bool {
    ||| '\u{9}' <= c && c <= '\u{d}'
    ||| c == ' '
    ||| c == '\u{85}'
    ||| c == '\u{a0}'
    ||| c == '\u{1680}'
    ||| '\u{2000}' <= c && c <= '\u{200a}'
    ||| c == '\u{2028}'
    ||| c == '\u{2029}'
    ||| c == '\u{202f}'
    ||| c == '\u{205f}'
    ||| c == '\u{3000}'
}

/// A text without the white space that it ends with.
pub open spec fn trim_end(s: Seq<char>) -> Seq<char>
    decreases s.len(),
{
    if s.len() > 0 && is_whitespace(s.last()) {
        trim_end(s.drop_last())
    } else {
        s
    }
}

/// The lower-case form of an ASCII capital; any other character is itself.
pub open spec fn ascii_lower(c: char) -> char {
    if 'A' <= c && c <= 'Z' {
        (c as u8 + 32) as u8 as char
    } else {
        c
    }
}

/// A text with each ASCII capital replaced by its lower-case letter.
pub open spec fn ascii_lowercase(s: Seq<char>) -> Seq<char> {
    s.map_values(|c: char| ascii_lower(c))
}

/// `needle` occurs in `haystack` as a contiguous run.
pub open spec fn occurs_in(needle: Seq<char>, haystack: Seq<char>) -> bool {
    exists|i: int|
        0 <= i && i + needle.len() <= haystack.len() && #[trigger] haystack.subrange(
            i,
            i + needle.len(),
        ) == needle
}

/// The texts of a list of strings.
pub open spec fn texts(strings: Seq<String>) -> Seq<Seq<char>> {
    strings.map_values(|s: String| s@)
}

/// The characters of a string, in order.
pub(crate) fn to_chars(s: &str) -> (chars: Vec<char>)
    ensures
        chars@ == s@,
{
    let mut chars: Vec<char> = Vec::new();
    for c in it: s.chars()
        invariant
            chars@ == s@.take(it.index() as int),
            it.seq() == s@,
    {
        chars.push(c);
    }
    chars
}

/// Tells whether a character is an ASCII digit.
pub(crate) fn char_is_digit(c: char) -> (r: bool)
    ensures
        r == is_ascii_digit(c),
{
    '0' <= c && c <= '9'
}

/// Tells whether a character is Unicode white space.
pub(crate) fn char_is_whitespace(c: char) -> (r: bool)
    ensures
        r == is_whitespace(c),
{
    ('\u{9}' <= c && c <= '\u{d}') || c == ' ' || c == '\u{85}' || c == '\u{a0}' || c
        == '\u{1680}' || ('\u{2000}' <= c && c <= '\u{200a}') || c == '\u{2028}' || c
        == '\u{2029}' || c == '\u{202f}' || c == '\u{205f}' || c == '\u{3000}'
}

/// Lowers one character if it is an ASCII capital.
pub(crate) fn char_to_ascii_lower(c: char) -> (r: char)
    ensures
        r == ascii_lower(c),
{
    if 'A' <= c && c <= 'Z' {
        (c as u8 + 32) as char
    } else {
        c
    }
}

/// Lowers the ASCII capitals of a text and leaves every other character.
pub(crate) fn to_ascii_lowercase(chars: &Vec<char>) -> (lower: Vec<char>)
    ensures
        lower@ == ascii_lowercase(chars@),
{
    let mut lower: Vec<char> = Vec::new();
    let mut i: usize = 0;
    while i < chars.len()
        invariant
            i <= chars.len(),
            lower@ == ascii_lowercase(chars@.take(i as int)),
        decreases chars.len() - i,
    {
        lower.push(char_to_ascii_lower(chars[i]));
        i = i + 1;
        assert(lower@ == ascii_lowercase(chars@.take(i as int)));
    }
    assert(chars@.take(i as int) == chars@);
    lower
}

/// Tells whether the text from position `from` on starts with `prefix`.
pub(crate) fn has_prefix_at(chars: &Vec<char>, from: usize, prefix: &Vec<char>) -> (r: bool)
    requires
        from <= chars.len(),
    ensures
        r == prefix@.is_prefix_of(chars@.skip(from as int)),
{
    let rest = chars.len() - from;
    if prefix.len() > rest {
        return false;
    }
    let mut i: usize = 0;
    while i < prefix.len()
        invariant
            from <= chars.len(),
            prefix.len() <= chars.len() - from,
            i <= prefix.len(),
            forall|j: int| 0 <= j < i ==> prefix@[j] == chars@[from + j],
        decreases prefix.len() - i,
    {
        if prefix[i] != chars[from + i] {
            assert(chars@.skip(from as int)[i as int] != prefix@[i as int]);
            return false;
        }
        i = i + 1;
    }
    assert(prefix@ =~= chars@.skip(from as int).subrange(0, prefix@.len() as int));
    true
}

/// Tells whether a list of strings holds a text.
pub(crate) fn holds_text(list: &Vec<String>, s: &String) -> (r: bool)
    ensures
        r == texts(list@).contains(s@),
{
    let mut i: usize = 0;
    while i < list.len()
        invariant
            i <= list.len(),
            forall|k: int| 0 <= k < i ==> texts(list@)[k] != s@,
        decreases list.len() - i,
    {
        if list[i] == *s {
            assert(texts(list@)[i as int] == s@);
            return true;
        }
        i = i + 1;
    }
    false
}

/// Joins `prefix` and the text from position `from` on.
pub(crate) fn join_from(prefix: &Vec<char>, chars: &Vec<char>, from: usize) -> (joined: Vec<char>)
    requires
        from <= chars.len(),
    ensures
        joined@ == prefix@ + chars@.skip(from as int),
{
    let mut joined: Vec<char> = Vec::new();
    let mut i: usize = 0;
    while i < prefix.len()
        invariant
            i <= prefix.len(),
            joined@ == prefix@.take(i as int),
        decreases prefix.len() - i,
    {
        joined.push(prefix[i]);
        i = i + 1;
    }
    assert(prefix@.take(i as int) == prefix@);
    let mut k: usize = from;
    while k < chars.len()
        invariant
            from <= k <= chars.len(),
            joined@ == prefix@ + chars@.subrange(from as int, k as int),
        decreases chars.len() - k,
    {
        joined.push(chars[k]);
        k = k + 1;
        assert(joined@ =~= prefix@ + chars@.subrange(from as int, k as int));
    }
    joined
}

/// Tells whether `needle` occurs somewhere in `haystack`.
pub(crate) fn contains(haystack: &Vec<char>, needle: &Vec<char>) -> (r: bool)
    ensures
        r == occurs_in(needle@, haystack@),
{
    if needle.len() > haystack.len() {
        return false;
    }
    let last = haystack.len() - needle.len();
    let mut i: usize = 0;
    while i <= last
        invariant
            needle.len() <= haystack.len(),
            last == haystack.len() - needle.len(),
            i <= last + 1,
            forall|k: int|
                0 <= k < i ==> #[trigger] haystack@.subrange(k, k + needle@.len()) != needle@,
        decreases last + 1 - i,
    {
        if has_prefix_at(haystack, i, needle) {
            assert(haystack@.skip(i as int).subrange(0, needle@.len() as int)
                =~= haystack@.subrange(i as int, i + needle@.len()));
            return true;
        }
        assert(haystack@.skip(i as int).subrange(0, needle@.len() as int)
            =~= haystack@.subrange(i as int, i + needle@.len()));
        i = i + 1;
    }
    false
}

/// A prefix of digits that stops at the end of the text or at a character
/// that is no digit is the run of digits that the text starts with.
pub(crate) proof fn lemma_leading_digits(s: Seq<char>, n: int)
    requires
        0 <= n <= s.len(),
        forall|i: int| 0 <= i < n ==> is_ascii_digit(#[trigger] s[i]),
        n == s.len() || !is_ascii_digit(s[n]),
    ensures
        leading_digits(s) == s.take(n),
    decreases n,
{
    if n == 0 {
        assert(s.take(0) =~= Seq::<char>::empty());
    } else {
        let rest = s.drop_first();
        assert forall|i: int| 0 <= i < n - 1 implies is_ascii_digit(#[trigger] rest[i]) by {
            assert(rest[i] == s[i + 1]);
        }
        lemma_leading_digits(rest, n - 1);
        assert(seq![s.first()] + rest.take(n - 1) =~= s.take(n));
    }
}

/// A text that differs from `prefix` at some position of `prefix`, or ends
/// before it, does not start with `prefix`.
pub(crate) proof fn lemma_not_prefix(prefix: Seq<char>, s: Seq<char>, i: int)
    requires
        0 <= i < prefix.len(),
        i >= s.len() || prefix[i] != s[i],
    ensures
        !prefix.is_prefix_of(s),
{
    if prefix.len() <= s.len() {
        assert(s.subrange(0, prefix.len() as int)[i] == s[i]);
    }
}

/// The run of digits that a text starts with holds digits only.
pub(crate) proof fn lemma_leading_digits_are_digits(s: Seq<char>)
    ensures
        all_digits(leading_digits(s)),
    decreases s.len(),
{
    if s.len() > 0 && is_ascii_digit(s.first()) {
        lemma_leading_digits_are_digits(s.drop_first());
    }
}

/// A suffix of digits that starts at the beginning of the text or after a
/// character that is no digit is the run of digits that the text ends with.
pub(crate) proof fn lemma_trailing_digits(s: Seq<char>, k: int)
    requires
        0 <= k <= s.len(),
        forall|i: int| k <= i < s.len() ==> is_ascii_digit(#[trigger] s[i]),
        k == 0 || !is_ascii_digit(s[k - 1]),
    ensures
        trailing_digits(s) == s.skip(k),
    decreases s.len() - k,
{
    if k == s.len() {
        assert(s.skip(k) =~= Seq::<char>::empty());
    } else {
        let front = s.drop_last();
        lemma_trailing_digits(front, k);
        assert(front.skip(k).push(s.last()) =~= s.skip(k));
    }
}

/// What is left of a text when a suffix of white space that follows the
/// start of the text or a character that is no white space is taken off.
pub(crate) proof fn lemma_trim_end(s: Seq<char>, n: int)
    requires
        0 <= n <= s.len(),
        forall|i: int| n <= i < s.len() ==> is_whitespace(#[trigger] s[i]),
        n == 0 || !is_whitespace(s[n - 1]),
    ensures
        trim_end(s) == s.take(n),
    decreases s.len() - n,
{
    if n == s.len() {
        assert(s.take(n) =~= s);
    } else {
        let front = s.drop_last();
        lemma_trim_end(front, n);
        assert(front.take(n) =~= s.take(n));
    }
}

/// The value of a run of digits is at least the value of each of its prefixes.
pub(crate) proof fn lemma_decimal_value_prefix(s: Seq<char>, k: int)
    requires
        0 <= k <= s.len(),
    ensures
        decimal_value(s.take(k)) <= decimal_value(s),
    decreases s.len() - k,
{
    if k == s.len() {
        assert(s.take(k) =~= s);
    } else {
        let front = s.drop_last();
        lemma_decimal_value_prefix(front, k);
        assert(front.take(k) =~= s.take(k));
    }
}

/// The position at which the run of ASCII digits that starts at `from` ends.
pub(crate) fn digits_end(chars: &Vec<char>, from: usize) -> (end: usize)
    requires
        from <= chars.len(),
    ensures
        from <= end <= chars.len(),
        chars@.subrange(from as int, end as int) == leading_digits(chars@.skip(from as int)),
        all_digits(chars@.subrange(from as int, end as int)),
{
    let mut end: usize = from;
    while end < chars.len() && char_is_digit(chars[end])
        invariant
            from <= end <= chars.len(),
            forall|i: int| from <= i < end ==> is_ascii_digit(#[trigger] chars@[i]),
        decreases chars.len() - end,
    {
        end = end + 1;
    }
    proof {
        let rest = chars@.skip(from as int);
        assert forall|i: int| 0 <= i < end - from implies is_ascii_digit(#[trigger] rest[i]) by {
            assert(rest[i] == chars@[from + i]);
        }
        lemma_leading_digits(rest, end - from);
        assert(rest.take(end - from) =~= chars@.subrange(from as int, end as int));
    }
    end
}

/// The position at which the run of ASCII digits that ends at `end` starts.
pub(crate) fn trailing_digits_start(chars: &Vec<char>, end: usize) -> (start: usize)
    requires
        end <= chars.len(),
    ensures
        start <= end,
        chars@.subrange(start as int, end as int) == trailing_digits(chars@.take(end as int)),
{
    let mut start: usize = end;
    while start > 0 && char_is_digit(chars[start - 1])
        invariant
            start <= end <= chars.len(),
            forall|i: int| start <= i < end ==> is_ascii_digit(#[trigger] chars@[i]),
        decreases start,
    {
        start = start - 1;
    }
    proof {
        let front = chars@.take(end as int);
        lemma_trailing_digits(front, start as int);
        assert(front.skip(start as int) =~= chars@.subrange(start as int, end as int));
    }
    start
}

/// The length of the text without the white space that it ends with.
pub(crate) fn trimmed_end(chars: &Vec<char>) -> (end: usize)
    ensures
        end <= chars.len(),
        chars@.take(end as int) == trim_end(chars@),
{
    let mut end: usize = chars.len();
    while end > 0 && char_is_whitespace(chars[end - 1])
        invariant
            end <= chars.len(),
            forall|i: int| end <= i < chars.len() ==> is_whitespace(#[trigger] chars@[i]),
        decreases end,
    {
        end = end - 1;
    }
    proof {
        lemma_trim_end(chars@, end as int);
    }
    end
}

/// Reads the characters from `from` up to `to` as a decimal `u64`.
pub(crate) fn parse_decimal(chars: &Vec<char>, from: usize, to: usize) -> (r: Option<u64>)
    requires
        from <= to <= chars.len(),
    ensures
        r == decimal_u64(chars@.subrange(from as int, to as int)),
{
    let ghost digits = chars@.subrange(from as int, to as int);
    if from == to {
        return None;
    }
    let mut value: u64 = 0;
    let mut i: usize = from;
    while i < to
        invariant
            from <= i <= to <= chars.len(),
            digits == chars@.subrange(from as int, to as int),
            all_digits(digits.take(i - from)),
            value == decimal_value(digits.take(i - from)),
        decreases to - i,
    {
        let c = chars[i];
        if !char_is_digit(c) {
            assert(digits[i - from] == c);
            return None;
        }
        let d: u64 = (c as u8 - 48) as u64;
        proof {
            let next = digits.take(i - from + 1);
            assert(next.drop_last() =~= digits.take(i - from));
            assert(next.last() == c);
            assert(decimal_value(next) == 10 * value + d);
            assert forall|j: int| 0 <= j < next.len() implies is_ascii_digit(#[trigger] next[j]) by {
                if j < i - from {
                    assert(digits.take(i - from)[j] == next[j]);
                }
            }
            lemma_decimal_value_prefix(digits, i - from + 1);
        }
        if value > (u64::MAX - d) / 10 {
            return None;
        }
        value = value * 10 + d;
        i = i + 1;
    }
    assert(digits.take(to - from) =~= digits);
    Some(value)
}

/// Appends one ASCII digit to a string.
pub(crate) fn push_digit(s: &mut String, c: char)
    requires
        is_ascii_digit(c),
    ensures
        final(s)@ == old(s)@.push(c),
{
    proof {
        reveal_strlit("0");
        reveal_strlit("1");
        reveal_strlit("2");
        reveal_strlit("3");
        reveal_strlit("4");
        reveal_strlit("5");
        reveal_strlit("6");
        reveal_strlit("7");
        reveal_strlit("8");
        reveal_strlit("9");
    }
    let ghost before = s@;
    let piece: &str = match c {
        '0' => "0",
        '1' => "1",
        '2' => "2",
        '3' => "3",
        '4' => "4",
        '5' => "5",
        '6' => "6",
        '7' => "7",
        '8' => "8",
        _ => "9",
    };
    assert(piece@ =~= seq![c]);
    s.append(piece);
    assert(s@ =~= before.push(c));
}

/// Appends the characters from `from` up to `to`, all of them ASCII digits.
pub(crate) fn push_digits(s: &mut String, chars: &Vec<char>, from: usize, to: usize)
    requires
        from <= to <= chars.len(),
        all_digits(chars@.subrange(from as int, to as int)),
    ensures
        final(s)@ == old(s)@ + chars@.subrange(from as int, to as int),
{
    let mut i: usize = from;
    while i < to
        invariant
            from <= i <= to <= chars.len(),
            all_digits(chars@.subrange(from as int, to as int)),
            s@ == old(s)@ + chars@.subrange(from as int, i as int),
        decreases to - i,
    {
        assert(chars@.subrange(from as int, to as int)[i - from] == chars@[i as int]);
        push_digit(s, chars[i]);
        i = i + 1;
        assert(s@ =~= old(s)@ + chars@.subrange(from as int, i as int));
    }
}

/// Writes a number in base ten.
pub(crate) fn decimal_string(n: u64) -> (s: String)
    ensures
        s@ == decimal_digits(n as nat),
    decreases n,
{
    if n < 10 {
        let mut s = String::new();
        push_digit(&mut s, (n as u8 + 48) as char);
        assert(s@ =~= seq![digit_char(n as nat)]);
        s
    } else {
        let mut s = decimal_string(n / 10);
        push_digit(&mut s, ((n % 10) as u8 + 48) as char);
        s
    }
}

} // verus!
