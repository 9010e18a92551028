//! Small verified text routines: digits in and out of strings.

use vstd::prelude::*;

verus! {

/// The character for a digit below sixteen, lower case.
pub open spec fn hex_char(d: nat) -> char {
    if d == 0 {
        '0'
    } else if d == 1 {
        '1'
    } else if d == 2 {
        '2'
    } else if d == 3 {
        '3'
    } else if d == 4 {
        '4'
    } else if d == 5 {
        '5'
    } else if d == 6 {
        '6'
    } else if d == 7 {
        '7'
    } else if d == 8 {
        '8'
    } else if d == 9 {
        '9'
    } else if d == 10 {
        'a'
    } else if d == 11 {
        'b'
    } else if d == 12 {
        'c'
    } else if d == 13 {
        'd'
    } else if d == 14 {
        'e'
    } else {
        'f'
    }
}

/// The value of a decimal digit character.
pub open spec fn digit_value(c: char) -> Option<nat> {
    if c == '0' {
        Some(0nat)
    } else if c == '1' {
        Some(1nat)
    } else if c == '2' {
        Some(2nat)
    } else if c == '3' {
        Some(3nat)
    } else if c == '4' {
        Some(4nat)
    } else if c == '5' {
        Some(5nat)
    } else if c == '6' {
        Some(6nat)
    } else if c == '7' {
        Some(7nat)
    } else if c == '8' {
        Some(8nat)
    } else if c == '9' {
        Some(9nat)
    } else {
        None
    }
}

/// `n` in decimal, without leading zeros.
pub open spec fn decimal_digits(n: nat) -> Seq<char>
    decreases n,
{
    if n < 10 {
        seq![hex_char(n)]
    } else {
        decimal_digits(n / 10).push(hex_char(n % 10))
    }
}

/// Whether every character of `s` is a decimal digit.
pub open spec fn all_digits(s: Seq<char>) -> bool {
    forall|i: int| 0 <= i < s.len() ==> digit_value(#[trigger] s[i]) is Some
}

/// The number that the digits of `s` spell, read as decimal.
pub open spec fn digits_number(s: Seq<char>) -> nat
    decreases s.len(),
{
    if s.len() == 0 {
        0
    } else {
        digits_number(s.drop_last()) * 10 + match digit_value(s.last()) {
            Some(d) => d,
            None => 0,
        }
    }
}

/// `s` without a leading `+`.
pub open spec fn unsigned_body(s: Seq<char>) -> Seq<char> {
    if s.len() > 0 && s[0] == '+' {
        s.skip(1)
    } else {
        s
    }
}

/// What an unsigned decimal number in `s` is: an optional `+`, then one or
/// more digits and nothing else, with a value of at most `limit`.
pub open spec fn parse_unsigned(s: Seq<char>, limit: nat) -> Option<nat> {
    let body = unsigned_body(s);
    if body.len() > 0 && all_digits(body) && digits_number(body) <= limit {
        Some(digits_number(body))
    } else {
        None
    }
}

/// `value` in lower-case hexadecimal, as exactly `width` digits: the lowest
/// `width` digits of `value`, with leading zeros.
pub open spec fn hex_digits(value: nat, width: nat) -> Seq<char>
    decreases width,
{
    if width == 0 {
        Seq::<char>::empty()
    } else {
        hex_digits(value / 16, (width - 1) as nat).push(hex_char(value % 16))
    }
}

/// `String::push`: appends one character.
#[verifier::external_body]
pub(crate) fn push_char(s: &mut String, c: char)
    ensures
        final(s)@ == old(s)@.push(c),
{
    s.push(c)
}

/// What `str::to_lowercase` makes of a text: its lower-case form by the
/// Unicode rules.
pub uninterp spec fn lowercase_of(text: Seq<char>) -> Seq<char>;

/// What `str::to_uppercase` makes of a text: its upper-case form by the
/// Unicode rules.
pub uninterp spec fn uppercase_of(text: Seq<char>) -> Seq<char>;

/// What `char::to_uppercase` makes of a character: its upper-case form by
/// the Unicode rules, which may be more than one character.
pub uninterp spec fn char_uppercase_of(c: char) -> Seq<char>;

/// What `char::is_whitespace` says of a character: whether Unicode counts it
/// as white space.
pub uninterp spec fn is_space(c: char) -> bool;

/// `str::to_lowercase`: the lower-case form of `text`.
#[verifier::external_body]
pub(crate) fn to_lowercase(text: &str) -> (lower: String)
    ensures
        lower@ == lowercase_of(text@),
{
    text.to_lowercase()
}

/// `str::to_uppercase`: the upper-case form of `text`.
#[verifier::external_body]
pub(crate) fn to_uppercase(text: &str) -> (upper: String)
    ensures
        upper@ == uppercase_of(text@),
{
    text.to_uppercase()
}

/// `char::to_uppercase`: the upper-case form of `c`, as a string.
#[verifier::external_body]
pub(crate) fn char_to_uppercase(c: char) -> (upper: String)
    ensures
        upper@ == char_uppercase_of(c),
{
    c.to_uppercase().to_string()
}

/// `char::is_whitespace`: whether `c` is white space.
#[verifier::external_body]
pub(crate) fn is_whitespace(c: char) -> (space: bool)
    ensures
        space == is_space(c),
{
    c.is_whitespace()
}

/// `s` without the white space at its end.
pub open spec fn trimmed_end(s: Seq<char>) -> Seq<char>
    decreases s.len(),
{
    if s.len() > 0 && is_space(s.last()) {
        trimmed_end(s.drop_last())
    } else {
        s
    }
}

/// `s` without the white space at its beginning and at its end.
pub open spec fn trimmed(s: Seq<char>) -> Seq<char>
    decreases s.len(),
{
    if s.len() > 0 && is_space(s[0]) {
        trimmed(s.drop_first())
    } else {
        trimmed_end(s)
    }
}

/// Whether `needle` occurs in `hay` at position `at`.
pub open spec fn occurs_at(hay: Seq<char>, needle: Seq<char>, at: int) -> bool {
    0 <= at && at + needle.len() <= hay.len() && hay.subrange(at, at + needle.len()) == needle
}

/// Whether `needle` occurs somewhere in `hay`.
pub open spec fn has_text(hay: Seq<char>, needle: Seq<char>) -> bool {
    exists|at: int| occurs_at(hay, needle, at)
}

/// The pieces of `s` between its `+` signs; one more than there are signs.
pub open spec fn split_plus(s: Seq<char>) -> Seq<Seq<char>>
    decreases s.len(),
{
    if s.len() == 0 {
        seq![Seq::<char>::empty()]
    } else {
        let front = split_plus(s.drop_last());
        if s.last() == '+' {
            front.push(Seq::<char>::empty())
        } else {
            front.update(front.len() - 1, front.last().push(s.last()))
        }
    }
}

/// `parts` with a `+` between each two.
pub open spec fn joined_plus(parts: Seq<Seq<char>>) -> Seq<char>
    decreases parts.len(),
{
    if parts.len() == 0 {
        Seq::empty()
    } else if parts.len() == 1 {
        parts[0]
    } else {
        joined_plus(parts.drop_last()).push('+') + parts.last()
    }
}

/// The texts of a list of strings.
pub open spec fn texts(strings: Seq<String>) -> Seq<Seq<char>> {
    strings.map_values(|s: String| s@)
}

/// Removes the white space at the beginning and at the end of `s`.
pub fn trim(s: &str) -> (inner: &str)
    ensures
        inner@ == trimmed(s@),
{
    let len: usize = s.unicode_len();
    let mut from: usize = 0;
    proof {
        assert(s@.subrange(0, len as int) =~= s@);
    }
    while from < len && is_whitespace(s.get_char(from))
        invariant
            0 <= from <= len,
            len == s@.len(),
            trimmed(s@) == trimmed(s@.subrange(from as int, len as int)),
        decreases len - from,
    {
        proof {
            let rest = s@.subrange(from as int, len as int);
            assert(rest[0] == s@[from as int]);
            assert(rest.drop_first() =~= s@.subrange(from + 1, len as int));
        }
        from += 1;
    }
    let mut to: usize = len;
    proof {
        let rest = s@.subrange(from as int, len as int);
        if rest.len() > 0 {
            assert(rest[0] == s@[from as int]);
        }
    }
    while to > from && is_whitespace(s.get_char(to - 1))
        invariant
            from <= to <= len,
            len == s@.len(),
            trimmed(s@) == trimmed_end(s@.subrange(from as int, to as int)),
        decreases to - from,
    {
        proof {
            let rest = s@.subrange(from as int, to as int);
            assert(rest.last() == s@[to - 1]);
            assert(rest.drop_last() =~= s@.subrange(from as int, to - 1));
        }
        to -= 1;
    }
    proof {
        let rest = s@.subrange(from as int, to as int);
        if rest.len() > 0 {
            assert(rest.last() == s@[to - 1]);
        }
    }
    s.substring_char(from, to)
}

/// Tests whether `needle` occurs in `hay`.
pub fn contains_text(hay: &str, needle: &str) -> (found: bool)
    ensures
        found == has_text(hay@, needle@),
{
    let n: usize = hay.unicode_len();
    let m: usize = needle.unicode_len();
    if m > n {
        proof {
            assert forall|at: int| !occurs_at(hay@, needle@, at) by {}
        }
        return false;
    }
    if m == 0 {
        proof {
            assert(hay@.subrange(0, 0) =~= needle@);
            assert(occurs_at(hay@, needle@, 0));
        }
        return true;
    }
    let mut at: usize = 0;
    while at <= n - m
        invariant
            0 <= at <= n - m + 1,
            n == hay@.len(),
            m == needle@.len(),
            0 < m <= n,
            forall|k: int| 0 <= k < at ==> !occurs_at(hay@, needle@, k),
        decreases n - m + 1 - at,
    {
        let mut k: usize = 0;
        let mut same = true;
        while k < m && same
            invariant
                0 <= k <= m,
                at + m <= n,
                n == hay@.len(),
                m == needle@.len(),
                same ==> forall|j: int| 0 <= j < k ==> hay@[at + j] == needle@[j],
                !same ==> !occurs_at(hay@, needle@, at as int),
            decreases m - k + if same { 1int } else { 0int },
        {
            if hay.get_char(at + k) != needle.get_char(k) {
                proof {
                    assert(hay@.subrange(at as int, at + m)[k as int] == hay@[at + k]);
                }
                same = false;
            } else {
                k += 1;
            }
        }
        if same {
            proof {
                assert(hay@.subrange(at as int, at + m) =~= needle@);
                assert(occurs_at(hay@, needle@, at as int));
            }
            return true;
        }
        at += 1;
    }
    proof {
        assert forall|k: int| !occurs_at(hay@, needle@, k) by {}
    }
    false
}

/// Cuts `s` at its `+` signs.
pub fn split_at_plus(s: &str) -> (parts: Vec<String>)
    ensures
        texts(parts@) == split_plus(s@),
{
    let len: usize = s.unicode_len();
    let mut parts: Vec<String> = Vec::new();
    let mut start: usize = 0;
    let mut i: usize = 0;
    proof {
        assert(s@.subrange(0, 0) =~= Seq::<char>::empty());
        assert(split_plus(s@.subrange(0, 0)) =~= texts(parts@).push(s@.subrange(0, 0)));
    }
    while i < len
        invariant
            0 <= start <= i <= len,
            len == s@.len(),
            split_plus(s@.subrange(0, i as int)) == texts(parts@).push(
                s@.subrange(start as int, i as int),
            ),
        decreases len - i,
    {
        let ghost before = texts(parts@);
        let ghost piece = s@.subrange(start as int, i as int);
        proof {
            assert(s@.subrange(0, i + 1).drop_last() =~= s@.subrange(0, i as int));
            assert(s@.subrange(0, i + 1).last() == s@[i as int]);
        }
        if s.get_char(i) == '+' {
            let part = String::from_str(s.substring_char(start, i));
            parts.push(part);
            start = i + 1;
            proof {
                assert(texts(parts@) =~= before.push(piece));
                assert(s@.subrange(start as int, i + 1) =~= Seq::<char>::empty());
            }
        } else {
            proof {
                assert(s@.subrange(start as int, i + 1) =~= piece.push(s@[i as int]));
                assert(before.push(piece).update(before.len() as int, piece.push(s@[i as int]))
                    =~= before.push(piece.push(s@[i as int])));
            }
        }
        i += 1;
    }
    let ghost before = texts(parts@);
    let last = String::from_str(s.substring_char(start, len));
    parts.push(last);
    proof {
        assert(s@.subrange(0, len as int) =~= s@);
        assert(texts(parts@) =~= before.push(s@.subrange(start as int, len as int)));
    }
    parts
}

/// Puts a `+` between each two of `parts`.
pub fn join_with_plus(parts: &Vec<String>) -> (whole: String)
    ensures
        whole@ == joined_plus(texts(parts@)),
{
    let mut whole = String::new();
    let mut i: usize = 0;
    proof {
        assert(texts(parts@).subrange(0, 0) =~= Seq::<Seq<char>>::empty());
    }
    while i < parts.len()
        invariant
            0 <= i <= parts@.len(),
            whole@ == joined_plus(texts(parts@).subrange(0, i as int)),
        decreases parts@.len() - i,
    {
        proof {
            let next = texts(parts@).subrange(0, i + 1);
            assert(next.drop_last() =~= texts(parts@).subrange(0, i as int));
            assert(next.last() == parts@[i as int]@);
            if i == 0 {
                assert(next[0] == parts@[0]@);
                assert(whole@ + parts@[0]@ =~= parts@[0]@);
            }
        }
        if i > 0 {
            push_char(&mut whole, '+');
        }
        whole.append(parts[i].as_str());
        i += 1;
    }
    proof {
        assert(texts(parts@).subrange(0, parts@.len() as int) =~= texts(parts@));
    }
    whole
}

/// The character of a digit below sixteen.
pub fn hex_char_of(d: u8) -> (c: char)
    requires
        d < 16,
    ensures
        c == hex_char(d as nat),
{
    if d == 0 {
        '0'
    } else if d == 1 {
        '1'
    } else if d == 2 {
        '2'
    } else if d == 3 {
        '3'
    } else if d == 4 {
        '4'
    } else if d == 5 {
        '5'
    } else if d == 6 {
        '6'
    } else if d == 7 {
        '7'
    } else if d == 8 {
        '8'
    } else if d == 9 {
        '9'
    } else if d == 10 {
        'a'
    } else if d == 11 {
        'b'
    } else if d == 12 {
        'c'
    } else if d == 13 {
        'd'
    } else if d == 14 {
        'e'
    } else {
        'f'
    }
}

/// The value of a decimal digit character, if it is one.
pub fn digit_value_of(c: char) -> (d: Option<u8>)
    ensures
        match d {
            Some(v) => digit_value(c) == Some(v as nat) && v < 10,
            None => digit_value(c) is None,
        },
{
    if c == '0' {
        Some(0)
    } else if c == '1' {
        Some(1)
    } else if c == '2' {
        Some(2)
    } else if c == '3' {
        Some(3)
    } else if c == '4' {
        Some(4)
    } else if c == '5' {
        Some(5)
    } else if c == '6' {
        Some(6)
    } else if c == '7' {
        Some(7)
    } else if c == '8' {
        Some(8)
    } else if c == '9' {
        Some(9)
    } else {
        None
    }
}

/// Appends `n` in decimal to `s`.
pub fn append_decimal(s: &mut String, n: u64)
    ensures
        final(s)@ == old(s)@ + decimal_digits(n as nat),
    decreases n,
{
    if n >= 10 {
        append_decimal(s, n / 10);
    }
    let d: u8 = (n % 10) as u8;
    push_char(s, hex_char_of(d));
    proof {
        assert(final(s)@ =~= old(s)@ + decimal_digits(n as nat));
    }
}

/// Appends the lowest `width` hexadecimal digits of `value` to `s`, lower
/// case, with leading zeros.
pub fn append_hex(s: &mut String, value: u64, width: usize)
    ensures
        final(s)@ == old(s)@ + hex_digits(value as nat, width as nat),
    decreases width,
{
    if width > 0 {
        append_hex(s, value / 16, width - 1);
        let d: u8 = (value % 16) as u8;
        push_char(s, hex_char_of(d));
    }
    proof {
        assert(final(s)@ =~= old(s)@ + hex_digits(value as nat, width as nat));
    }
}

/// Whether `s` begins with `prefix`.
pub open spec fn has_prefix(s: Seq<char>, prefix: Seq<char>) -> bool {
    prefix.len() <= s.len() && s.subrange(0, prefix.len() as int) == prefix
}

/// Tests whether `s` begins with `prefix`.
pub fn starts_with(s: &str, prefix: &str) -> (yes: bool)
    ensures
        yes == has_prefix(s@, prefix@),
{
    let n: usize = prefix.unicode_len();
    let m: usize = s.unicode_len();
    if n > m {
        return false;
    }
    let mut i: usize = 0;
    while i < n
        invariant
            0 <= i <= n,
            n == prefix@.len(),
            m == s@.len(),
            n <= m,
            forall|k: int| 0 <= k < i ==> s@[k] == prefix@[k],
        decreases n - i,
    {
        if s.get_char(i) != prefix.get_char(i) {
            proof {
                assert(s@.subrange(0, n as int)[i as int] == s@[i as int]);
            }
            return false;
        }
        i += 1;
    }
    proof {
        assert(s@.subrange(0, n as int) =~= prefix@);
    }
    true
}

proof fn lemma_digits_number_push(s: Seq<char>, c: char)
    ensures
        digits_number(s.push(c)) == digits_number(s) * 10 + match digit_value(c) {
            Some(d) => d,
            None => 0,
        },
{
    assert(s.push(c).drop_last() =~= s);
}

/// The digits of a longer number spell a number at least as large as each of
/// its prefixes.
proof fn lemma_digits_number_grows(s: Seq<char>, k: int)
    requires
        0 <= k <= s.len(),
    ensures
        digits_number(s.subrange(0, k)) <= digits_number(s),
    decreases s.len() - k,
{
    if k == s.len() {
        assert(s.subrange(0, k) =~= s);
    } else {
        lemma_digits_number_grows(s, k + 1);
        assert(s.subrange(0, k + 1).drop_last() =~= s.subrange(0, k));
    }
}

/// Reads the unsigned decimal number in the characters of `s` from `from` on:
/// an optional `+`, then digits only, at least one, with a value of at most
/// `limit`.
pub fn parse_unsigned_from(s: &str, from: usize, limit: u64) -> (parsed: Option<u64>)
    requires
        from <= s@.len(),
    ensures
        match parsed {
            Some(v) => parse_unsigned(s@.skip(from as int), limit as nat) == Some(v as nat),
            None => parse_unsigned(s@.skip(from as int), limit as nat) is None,
        },
{
    let len: usize = s.unicode_len();
    let ghost tail = s@.skip(from as int);
    let mut start: usize = from;
    if start < len && s.get_char(start) == '+' {
        start = start + 1;
    }
    let ghost body = s@.skip(start as int);
    proof {
        if start > from {
            assert(tail[0] == '+');
            assert(tail.skip(1) =~= body);
        } else {
            assert(tail =~= body);
            if tail.len() > 0 {
                assert(tail[0] == s@[from as int]);
            }
        }
    }
    assert(unsigned_body(tail) == body);
    if start >= len {
        return None;
    }
    let mut value: u64 = 0;
    let mut i: usize = start;
    while i < len
        invariant
            start <= i <= len,
            len == s@.len(),
            body == s@.skip(start as int),
            unsigned_body(s@.skip(from as int)) == body,
            all_digits(body.subrange(0, i - start)),
            value == digits_number(body.subrange(0, i - start)),
            value <= limit,
        decreases len - i,
    {
        let c = s.get_char(i);
        let ghost seen = body.subrange(0, i - start);
        let ghost next = body.subrange(0, i - start + 1);
        proof {
            assert(body[i - start] == c);
            assert(next =~= seen.push(c));
            lemma_digits_number_push(seen, c);
        }
        match digit_value_of(c) {
            None => {
                proof {
                    assert(digit_value(body[i - start]) is None);
                }
                return None;
            },
            Some(d) => {
                let wider: u128 = (value as u128) * 10 + (d as u128);
                if wider > limit as u128 {
                    proof {
                        lemma_digits_number_grows(body, i - start + 1);
                    }
                    return None;
                }
                value = wider as u64;
                proof {
                    assert forall|k: int| 0 <= k < next.len() implies digit_value(
                        #[trigger] next[k],
                    ) is Some by {
                        if k < seen.len() {
                            assert(next[k] == seen[k]);
                        }
                    }
                }
            },
        }
        i += 1;
    }
    proof {
        assert(body.subrange(0, len - start) =~= body);
    }
    Some(value)
}

} // verus!
