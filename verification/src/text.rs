//! Text helpers: the string operations that the rest of the crate builds on, each over the
//! sequence of characters that a string holds.

use vstd::prelude::*;
use vstd::string::*;
use vstd::utf8::encode_utf8_decode_utf8;

verus! {

/// `String::push` appends the given character to the end of the string.
pub assume_specification[ String::push ](s: &mut String, c: char)
    ensures
        final(s)@ == old(s)@.push(c),
;

/// The characters with the Unicode property `White_Space`.
pub open spec fn is_white_space(c: char) -> bool {
    ||| '\u{9}' <= c <= '\u{d}'
    ||| c == ' '
    ||| c == '\u{85}'
    ||| c == '\u{a0}'
    ||| c == '\u{1680}'
    ||| '\u{2000}' <= c <= '\u{200a}'
    ||| c == '\u{2028}'
    ||| c == '\u{2029}'
    ||| c == '\u{202f}'
    ||| c == '\u{205f}'
    ||| c == '\u{3000}'
}

/// `s` without the white space at its front.
pub open spec fn trim_start(s: Seq<char>) -> Seq<char>
    decreases s.len(),
{
    if s.len() > 0 && is_white_space(s[0]) {
        trim_start(s.skip(1))
    } else {
        s
    }
}

/// `s` without the white space at its back.
pub open spec fn trim_end(s: Seq<char>) -> Seq<char>
    decreases s.len(),
{
    if s.len() > 0 && is_white_space(s.last()) {
        trim_end(s.drop_last())
    } else {
        s
    }
}

/// `s` without the white space at either end.
pub open spec fn trimmed(s: Seq<char>) -> Seq<char> {
    trim_end(trim_start(s))
}

/// The pieces of `s` between the occurrences of `sep`: one more than there are occurrences.
pub open spec fn split_at_each(s: Seq<char>, sep: char) -> Seq<Seq<char>>
    decreases s.len(),
{
    if s.len() == 0 {
        seq![Seq::empty()]
    } else {
        let before = split_at_each(s.drop_last(), sep);
        if s.last() == sep {
            before.push(Seq::empty())
        } else {
            before.drop_last().push(before.last().push(s.last()))
        }
    }
}

/// `pattern` stands in `s` at position `i`.
pub open spec fn occurs_at(s: Seq<char>, pattern: Seq<char>, i: int) -> bool {
    0 <= i && i + pattern.len() <= s.len() && s.subrange(i, i + pattern.len()) == pattern
}

/// `pattern` stands somewhere in `s`.
pub open spec fn occurs_in(s: Seq<char>, pattern: Seq<char>) -> bool {
    exists|i: int| occurs_at(s, pattern, i)
}

/// `s` with `with` in place of each occurrence of the character `from`.
pub open spec fn replaced(s: Seq<char>, from: char, with: Seq<char>) -> Seq<char>
    decreases s.len(),
{
    if s.len() == 0 {
        Seq::empty()
    } else if s.last() == from {
        replaced(s.drop_last(), from, with) + with
    } else {
        replaced(s.drop_last(), from, with).push(s.last())
    }
}

pub open spec fn ascii_lower(c: char) -> char {
    if 'A' <= c <= 'Z' {
        (c as u32 + 32) as char
    } else {
        c
    }
}

/// Equal, but for the case of ASCII letters.
pub open spec fn same_ignoring_ascii_case(a: Seq<char>, b: Seq<char>) -> bool {
    a.len() == b.len() && forall|i: int|
        0 <= i < a.len() ==> ascii_lower(#[trigger] a[i]) == ascii_lower(b[i])
}

pub open spec fn is_digit(c: char) -> bool {
    '0' <= c <= '9'
}

pub open spec fn digit_value(c: char) -> nat {
    (c as u32 - '0' as u32) as nat
}

pub open spec fn digit_char(d: nat) -> char {
    ('0' as u32 + d) as char
}

/// `n` in decimal digits, without leading zeros.
pub open spec fn decimal(n: nat) -> Seq<char>
    decreases n,
{
    if n < 10 {
        seq![digit_char(n)]
    } else {
        decimal(n / 10).push(digit_char(n % 10))
    }
}

pub open spec fn all_digits(s: Seq<char>) -> bool {
    forall|i: int| 0 <= i < s.len() ==> is_digit(#[trigger] s[i])
}

/// The number that a row of decimal digits stands for.
pub open spec fn digits_value(s: Seq<char>) -> nat
    decreases s.len(),
{
    if s.len() == 0 {
        0
    } else {
        digits_value(s.drop_last()) * 10 + digit_value(s.last())
    }
}

/// What is left of `s` without one plus sign at its front.
pub open spec fn without_plus(s: Seq<char>) -> Seq<char> {
    if s.len() > 0 && s[0] == '+' {
        s.skip(1)
    } else {
        s
    }
}

/// The number up to `max` that `s` writes out: an optional plus sign and then decimal digits.
pub open spec fn unsigned_number(s: Seq<char>, max: nat) -> Option<nat> {
    let digits = without_plus(s);
    if digits.len() > 0 && all_digits(digits) && digits_value(digits) <= max {
        Some(digits_value(digits))
    } else {
        None
    }
}

/// The strings of a list, each as its characters.
pub open spec fn texts(list: Seq<String>) -> Seq<Seq<char>> {
    list.map_values(|s: String| s@)
}

/// Whether the character has the Unicode property `White_Space`.
pub fn is_whitespace(c: char) -> (r: bool)
    ensures
        r == is_white_space(c),
{
    ('\u{9}' <= c && c <= '\u{d}') || c == ' ' || c == '\u{85}' || c == '\u{a0}' || c == '\u{1680}' || (
    '\u{2000}' <= c && c <= '\u{200a}') || c == '\u{2028}' || c == '\u{2029}' || c == '\u{202f}' || c
        == '\u{205f}' || c == '\u{3000}'
}

/// The characters of `s`.
pub fn chars_of(s: &str) -> (r: Vec<char>)
    ensures
        r@ == s@,
{
    let mut out: Vec<char> = Vec::new();
    for c in it: s.chars()
        invariant
            out@ == it.seq().take(it.index() as int),
            it.seq() == s@,
    {
        out.push(c);
    }
    out
}

/// The string of the characters `chars[from..to]`.
pub fn text_between(chars: &Vec<char>, from: usize, to: usize) -> (r: String)
    requires
        from <= to <= chars@.len(),
    ensures
        r@ == chars@.subrange(from as int, to as int),
{
    let mut out = String::new();
    let mut i: usize = from;
    while i < to
        invariant
            from <= i <= to <= chars@.len(),
            out@ == chars@.subrange(from as int, i as int),
        decreases to - i,
    {
        out.push(chars[i]);
        i = i + 1;
    }
    out
}

/// Whether two strings hold the same characters.
pub fn same_text(a: &str, b: &str) -> (r: bool)
    ensures
        r == (a@ == b@),
{
    let left = a.as_bytes();
    let right = b.as_bytes();
    let n: usize = left.len();
    if right.len() != n {
        return false;
    }
    let mut i: usize = 0;
    while i < n
        invariant
            i <= n,
            n == left@.len(),
            n == right@.len(),
            left@ == a.spec_bytes(),
            right@ == b.spec_bytes(),
            forall|k: int| 0 <= k < i ==> left@[k] == #[trigger] right@[k],
        decreases n - i,
    {
        if left[i] != right[i] {
            return false;
        }
        i = i + 1;
    }
    proof {
        assert(left@ =~= right@);
        encode_utf8_decode_utf8(a@);
        encode_utf8_decode_utf8(b@);
    }
    true
}

proof fn lemma_trim_start(s: Seq<char>, i: int)
    requires
        0 <= i <= s.len(),
        forall|k: int| 0 <= k < i ==> is_white_space(#[trigger] s[k]),
        i < s.len() ==> !is_white_space(s[i]),
    ensures
        trim_start(s) == s.skip(i),
    decreases s.len(),
{
    if i == 0 {
        assert(s.skip(0) == s);
    } else {
        assert forall|k: int| 0 <= k < i - 1 implies is_white_space(#[trigger] s.skip(1)[k]) by {
            assert(s.skip(1)[k] == s[k + 1]);
        }
        lemma_trim_start(s.skip(1), i - 1);
        assert(s.skip(1).skip(i - 1) == s.skip(i));
    }
}

proof fn lemma_trim_end(s: Seq<char>, j: int)
    requires
        0 <= j <= s.len(),
        forall|k: int| j <= k < s.len() ==> is_white_space(#[trigger] s[k]),
        j > 0 ==> !is_white_space(s[j - 1]),
    ensures
        trim_end(s) == s.take(j),
    decreases s.len(),
{
    if j == s.len() {
        assert(s.take(j) == s);
    } else {
        lemma_trim_end(s.drop_last(), j);
        assert(s.drop_last().take(j) == s.take(j));
    }
}

/// The string without the white space at its ends.
pub fn trim(s: &str) -> (r: String)
    ensures
        r@ == trimmed(s@),
{
    let chars = chars_of(s);
    let n: usize = chars.len();
    let mut i: usize = 0;
    while i < n && is_whitespace(chars[i])
        invariant
            i <= n == chars@.len(),
            forall|k: int| 0 <= k < i ==> is_white_space(#[trigger] chars@[k]),
        decreases n - i,
    {
        i = i + 1;
    }
    let mut j: usize = n;
    while j > i && is_whitespace(chars[j - 1])
        invariant
            i <= j <= n == chars@.len(),
            forall|k: int| j <= k < n ==> is_white_space(#[trigger] chars@[k]),
        decreases j,
    {
        j = j - 1;
    }
    proof {
        lemma_trim_start(chars@, i as int);
        let rest = chars@.skip(i as int);
        assert forall|k: int| j - i <= k < rest.len() implies is_white_space(#[trigger] rest[k]) by {
            assert(rest[k] == chars@[k + i]);
        }
        lemma_trim_end(rest, j - i);
        assert(rest.take(j - i) == chars@.subrange(i as int, j as int));
    }
    text_between(&chars, i, j)
}

/// The pieces of the string between the occurrences of `sep`.
pub fn split(s: &str, sep: char) -> (r: Vec<String>)
    ensures
        texts(r@) == split_at_each(s@, sep),
{
    let mut out: Vec<String> = Vec::new();
    let mut current = String::new();
    let chars = chars_of(s);
    let n: usize = chars.len();
    let mut i: usize = 0;
    assert(split_at_each(chars@.take(0), sep) =~= seq![Seq::<char>::empty()]);
    while i < n
        invariant
            i <= n == chars@.len(),
            texts(out@).push(current@) == split_at_each(chars@.take(i as int), sep),
        decreases n - i,
    {
        let c: char = chars[i];
        let ghost before = texts(out@).push(current@);
        assert(chars@.take(i + 1).drop_last() == chars@.take(i as int));
        if c == sep {
            out.push(current);
            current = String::new();
            assert(texts(out@) =~= before);
        } else {
            current.push(c);
            assert(before.drop_last() =~= texts(out@));
        }
        i = i + 1;
    }
    assert(chars@.take(n as int) == chars@);
    let ghost before = texts(out@).push(current@);
    out.push(current);
    assert(texts(out@) =~= before);
    out
}

/// Whether `pattern` stands in `s` at position `i`.
fn matches_at(s: &Vec<char>, pattern: &Vec<char>, i: usize) -> (r: bool)
    requires
        i + pattern@.len() <= s@.len(),
    ensures
        r == occurs_at(s@, pattern@, i as int),
{
    let n: usize = pattern.len();
    let size: usize = s.len();
    let mut k: usize = 0;
    while k < n
        invariant
            k <= n == pattern@.len(),
            i + n <= size == s@.len(),
            forall|m: int| 0 <= m < k ==> s@[i + m] == #[trigger] pattern@[m],
        decreases n - k,
    {
        if s[i + k] != pattern[k] {
            proof {
                let part = s@.subrange(i as int, i + pattern@.len());
                assert(part[k as int] != pattern@[k as int]);
            }
            return false;
        }
        k = k + 1;
    }
    assert(s@.subrange(i as int, i + pattern@.len()) =~= pattern@);
    true
}

/// Whether `pattern` stands somewhere in `s`.
pub fn contains(s: &str, pattern: &str) -> (r: bool)
    ensures
        r == occurs_in(s@, pattern@),
{
    let text = chars_of(s);
    let wanted = chars_of(pattern);
    let n: usize = text.len();
    let m: usize = wanted.len();
    if m > n {
        return false;
    }
    let mut i: usize = 0;
    while i <= n - m
        invariant
            m <= n,
            n == text@.len(),
            m == wanted@.len(),
            text@ == s@,
            wanted@ == pattern@,
            i <= n - m + 1,
            forall|k: int| 0 <= k < i ==> !occurs_at(s@, pattern@, k),
        decreases n - m + 1 - i,
    {
        if matches_at(&text, &wanted, i) {
            return true;
        }
        if i == n - m {
            assert(forall|k: int| i < k ==> !occurs_at(s@, pattern@, k));
            return false;
        }
        i = i + 1;
    }
    false
}

/// Whether `s` starts with `prefix`.
pub fn starts_with(s: &str, prefix: &str) -> (r: bool)
    ensures
        r == occurs_at(s@, prefix@, 0),
{
    let text = chars_of(s);
    let wanted = chars_of(prefix);
    wanted.len() <= text.len() && matches_at(&text, &wanted, 0)
}

/// The string with `with` in place of each occurrence of the character `from`.
pub fn replace(s: &str, from: char, with: &str) -> (r: String)
    ensures
        r@ == replaced(s@, from, with@),
{
    let chars = chars_of(s);
    let n: usize = chars.len();
    let mut out = String::new();
    let mut i: usize = 0;
    while i < n
        invariant
            i <= n == chars@.len(),
            out@ == replaced(chars@.take(i as int), from, with@),
        decreases n - i,
    {
        assert(chars@.take(i + 1).drop_last() == chars@.take(i as int));
        if chars[i] == from {
            out.append(with);
        } else {
            out.push(chars[i]);
        }
        i = i + 1;
    }
    assert(chars@.take(n as int) == chars@);
    out
}

fn to_ascii_lower(c: char) -> (r: char)
    ensures
        r == ascii_lower(c),
{
    if 'A' <= c && c <= 'Z' {
        (c as u8 + 32) as char
    } else {
        c
    }
}

/// Whether the strings are equal, but for the case of ASCII letters.
pub fn eq_ignore_ascii_case(a: &str, b: &str) -> (r: bool)
    ensures
        r == same_ignoring_ascii_case(a@, b@),
{
    let left = chars_of(a);
    let right = chars_of(b);
    let n: usize = left.len();
    if n != right.len() {
        return false;
    }
    let mut i: usize = 0;
    while i < n
        invariant
            i <= n == left@.len() == right@.len(),
            left@ == a@,
            right@ == b@,
            forall|k: int| 0 <= k < i ==> ascii_lower(#[trigger] a@[k]) == ascii_lower(b@[k]),
        decreases n - i,
    {
        if to_ascii_lower(left[i]) != to_ascii_lower(right[i]) {
            return false;
        }
        i = i + 1;
    }
    true
}

/// `n` in decimal digits.
pub fn decimal_text(n: u64) -> (r: String)
    ensures
        r@ == decimal(n as nat),
    decreases n,
{
    let last: char = ('0' as u8 + (n % 10) as u8) as char;
    let mut out = if n < 10 {
        String::new()
    } else {
        decimal_text(n / 10)
    };
    out.push(last);
    assert(out@ =~= decimal(n as nat));
    out
}

proof fn lemma_digits_value_grows(s: Seq<char>, i: int)
    requires
        0 <= i <= s.len(),
    ensures
        digits_value(s.take(i)) <= digits_value(s),
    decreases s.len(),
{
    if i == s.len() {
        assert(s.take(i) == s);
    } else {
        lemma_digits_value_grows(s.drop_last(), i);
        assert(s.drop_last().take(i) == s.take(i));
    }
}

/// Reads an unsigned number up to `max`: an optional plus sign and then decimal digits.
fn parse_up_to(s: &str, max: u64) -> (r: Option<u64>)
    ensures
        match r {
            Some(n) => unsigned_number(s@, max as nat) == Some(n as nat),
            None => unsigned_number(s@, max as nat) is None,
        },
{
    let chars = chars_of(s);
    let n: usize = chars.len();
    let start: usize = if n > 0 && chars[0] == '+' {
        1
    } else {
        0
    };
    let ghost digits = without_plus(s@);
    assert(digits == s@.skip(start as int));
    if start == n {
        return None;
    }
    let mut value: u64 = 0;
    let mut i: usize = start;
    while i < n
        invariant
            start <= i <= n == chars@.len(),
            chars@ == s@,
            digits == s@.skip(start as int),
            digits == without_plus(s@),
            forall|k: int| 0 <= k < i - start ==> is_digit(#[trigger] digits[k]),
            value == digits_value(digits.take(i - start)),
            value <= max,
        decreases n - i,
    {
        let c: char = chars[i];
        let ghost k = i - start;
        assert(digits[k] == c);
        if c < '0' || c > '9' {
            assert(!is_digit(digits[k]));
            return None;
        }
        let d: u64 = (c as u8 - '0' as u8) as u64;
        proof {
            assert(digits.take(k + 1).drop_last() == digits.take(k));
            assert(digits_value(digits.take(k + 1)) == value * 10 + d);
            lemma_digits_value_grows(digits, k + 1);
        }
        if value > max / 10 {
            return None;
        }
        if d > max - value * 10 {
            return None;
        }
        value = value * 10 + d;
        i = i + 1;
    }
    assert(digits.take(n - start) == digits);
    Some(value)
}

/// Reads an unsigned 64-bit number: an optional plus sign and then decimal digits.
pub fn parse_u64(s: &str) -> (r: Option<u64>)
    ensures
        match r {
            Some(n) => unsigned_number(s@, u64::MAX as nat) == Some(n as nat),
            None => unsigned_number(s@, u64::MAX as nat) is None,
        },
{
    parse_up_to(s, u64::MAX)
}

/// Reads an unsigned number of the machine's word size: an optional plus sign and then decimal
/// digits.
pub fn parse_usize(s: &str) -> (r: Option<usize>)
    ensures
        match r {
            Some(n) => unsigned_number(s@, usize::MAX as nat) == Some(n as nat),
            None => unsigned_number(s@, usize::MAX as nat) is None,
        },
{
    match parse_up_to(s, usize::MAX as u64) {
        Some(n) => Some(n as usize),
        None => None,
    }
}

/// A piece holds no separator, and no character that the whole does not hold.
pub proof fn lemma_pieces(s: Seq<char>, sep: char)
    ensures
        split_at_each(s, sep).len() > 0,
        split_at_each(s, sep).len() > 1 <==> s.contains(sep),
        forall|i: int|
            0 <= i < split_at_each(s, sep).len() ==> !(#[trigger] split_at_each(s, sep)[i]).contains(
                sep,
            ),
        forall|i: int, c: char|
            0 <= i < split_at_each(s, sep).len() && (#[trigger] split_at_each(s, sep)[i]).contains(c)
                ==> #[trigger] s.contains(c),
    decreases s.len(),
{
    if s.len() == 0 {
        assert(!s.contains(sep));
    } else {
        let front = s.drop_last();
        lemma_pieces(front, sep);
        let before = split_at_each(front, sep);
        let pieces = split_at_each(s, sep);
        assert(s =~= front.push(s.last()));
        assert(forall|c: char| front.contains(c) ==> s.contains(c)) by {
            assert(forall|k: int| 0 <= k < front.len() ==> front[k] == s[k]);
        }
        assert(s.contains(s.last())) by {
            assert(s[s.len() - 1] == s.last());
        }
        if s.last() == sep {
            assert forall|i: int, c: char|
                0 <= i < pieces.len() && (#[trigger] pieces[i]).contains(c) implies c != sep
                && #[trigger] s.contains(c) by {
                if i < before.len() {
                    assert(pieces[i] == before[i]);
                }
            }
        } else {
            assert(s.contains(sep) ==> front.contains(sep)) by {
                if s.contains(sep) {
                    let k = choose|k: int| 0 <= k < s.len() && s[k] == sep;
                    assert(front[k] == sep);
                }
            }
            assert forall|i: int, c: char|
                0 <= i < pieces.len() && (#[trigger] pieces[i]).contains(c) implies c != sep
                && #[trigger] s.contains(c) by {
                if i < before.len() - 1 {
                    assert(pieces[i] == before[i]);
                } else {
                    let k = choose|k: int| 0 <= k < pieces[i].len() && pieces[i][k] == c;
                    if k < before.last().len() {
                        assert(before.last()[k] == c);
                        assert(before[before.len() - 1].contains(c));
                    }
                }
            }
        }
    }
}

/// The pieces of two texts with a separator between them are those of the first, followed by those
/// of the second.
pub proof fn lemma_pieces_of_both(first: Seq<char>, sep: char, second: Seq<char>)
    ensures
        split_at_each(first.push(sep) + second, sep) == split_at_each(first, sep) + split_at_each(
            second,
            sep,
        ),
    decreases second.len(),
{
    let whole = first.push(sep) + second;
    let before = split_at_each(first, sep);
    if second.len() == 0 {
        assert(whole.drop_last() =~= first);
        assert(split_at_each(whole, sep) =~= before + split_at_each(second, sep));
    } else {
        let front = second.drop_last();
        lemma_pieces_of_both(first, sep, front);
        lemma_pieces(front, sep);
        assert(whole.drop_last() =~= first.push(sep) + front);
        assert(split_at_each(whole, sep) =~= before + split_at_each(second, sep));
    }
}

/// The texts, one after the other, with `sep` between them.
pub open spec fn joined(pieces: Seq<Seq<char>>, sep: char) -> Seq<char>
    decreases pieces.len(),
{
    if pieces.len() == 0 {
        Seq::empty()
    } else if pieces.len() == 1 {
        pieces[0]
    } else {
        joined(pieces.drop_last(), sep).push(sep) + pieces.last()
    }
}

/// A text without the separator is its own only piece.
pub proof fn lemma_one_piece(s: Seq<char>, sep: char)
    requires
        !s.contains(sep),
    ensures
        split_at_each(s, sep) == seq![s],
    decreases s.len(),
{
    if s.len() > 0 {
        assert(s[s.len() - 1] != sep);
        assert(!s.drop_last().contains(sep)) by {
            assert(forall|i: int| 0 <= i < s.len() - 1 ==> s.drop_last()[i] == s[i]);
        }
        lemma_one_piece(s.drop_last(), sep);
        assert(s.drop_last().push(s.last()) =~= s);
        assert(split_at_each(s, sep) =~= seq![s]);
    } else {
        assert(s =~= Seq::empty());
    }
}

/// Splitting undoes joining, where no piece holds the separator.
pub proof fn lemma_joined_pieces(pieces: Seq<Seq<char>>, sep: char)
    requires
        pieces.len() > 0,
        forall|i: int| 0 <= i < pieces.len() ==> !(#[trigger] pieces[i]).contains(sep),
    ensures
        split_at_each(joined(pieces, sep), sep) == pieces,
    decreases pieces.len(),
{
    let last = pieces[pieces.len() - 1];
    lemma_one_piece(last, sep);
    if pieces.len() == 1 {
        assert(pieces =~= seq![last]);
    } else {
        let front = pieces.drop_last();
        assert(forall|i: int| 0 <= i < front.len() ==> front[i] == pieces[i]);
        lemma_joined_pieces(front, sep);
        lemma_pieces_of_both(joined(front, sep), sep, last);
        assert(front + seq![last] =~= pieces);
    }
}

proof fn lemma_trim_start_keeps(s: Seq<char>)
    ensures
        trim_start(s).len() > 0 ==> !is_white_space(trim_start(s)[0]),
        forall|c: char| trim_start(s).contains(c) ==> #[trigger] s.contains(c),
    decreases s.len(),
{
    if s.len() > 0 && is_white_space(s[0]) {
        let rest = s.skip(1);
        lemma_trim_start_keeps(rest);
        assert forall|c: char| trim_start(s).contains(c) implies #[trigger] s.contains(c) by {
            assert(rest.contains(c));
            let i = choose|i: int| 0 <= i < rest.len() && rest[i] == c;
            assert(s[i + 1] == c);
        }
    }
}

proof fn lemma_trim_end_keeps(s: Seq<char>)
    ensures
        trim_end(s).len() > 0 ==> !is_white_space(trim_end(s).last()) && trim_end(s)[0] == s[0],
        forall|c: char| trim_end(s).contains(c) ==> #[trigger] s.contains(c),
    decreases s.len(),
{
    if s.len() > 0 && is_white_space(s.last()) {
        let rest = s.drop_last();
        lemma_trim_end_keeps(rest);
        assert forall|c: char| trim_end(s).contains(c) implies #[trigger] s.contains(c) by {
            assert(rest.contains(c));
            let i = choose|i: int| 0 <= i < rest.len() && rest[i] == c;
            assert(s[i] == c);
        }
    }
}

/// A trimmed text neither starts nor ends with white space, and holds no character that the whole
/// does not hold.
pub proof fn lemma_trimmed_text(s: Seq<char>)
    ensures
        trimmed(s).len() > 0 ==> !is_white_space(trimmed(s)[0]) && !is_white_space(trimmed(s).last()),
        forall|c: char| trimmed(s).contains(c) ==> #[trigger] s.contains(c),
{
    lemma_trim_start_keeps(s);
    lemma_trim_end_keeps(trim_start(s));
    assert forall|c: char| trimmed(s).contains(c) implies #[trigger] s.contains(c) by {
        assert(trim_start(s).contains(c));
    }
}

/// Trimming takes off the white space at both ends and nothing else: of white space, then a text
/// that is empty or starts and ends with something else, then white space, that text is left.
pub proof fn law_trimming_leaves_the_middle(
    s: &str,
    front: Seq<char>,
    middle: Seq<char>,
    back: Seq<char>,
    r: String,
)
    requires
        call_ensures(trim, (s,), r),
        s@ == front + middle + back,
        forall|i: int| 0 <= i < front.len() ==> is_white_space(#[trigger] front[i]),
        forall|i: int| 0 <= i < back.len() ==> is_white_space(#[trigger] back[i]),
        middle.len() > 0 ==> !is_white_space(middle[0]) && !is_white_space(
            middle[middle.len() - 1],
        ),
    ensures
        r@ == middle,
{
    lemma_trimmed_middle(front, middle, back);
}

/// Of white space, a text without white space at its ends, and white space, the text is left.
pub proof fn lemma_trimmed_middle(front: Seq<char>, middle: Seq<char>, back: Seq<char>)
    requires
        forall|i: int| 0 <= i < front.len() ==> is_white_space(#[trigger] front[i]),
        forall|i: int| 0 <= i < back.len() ==> is_white_space(#[trigger] back[i]),
        middle.len() > 0 ==> !is_white_space(middle[0]) && !is_white_space(
            middle[middle.len() - 1],
        ),
    ensures
        trimmed(front + middle + back) == middle,
{
    let s = front + middle + back;
    if middle.len() > 0 {
        let i = front.len() as int;
        assert(s[i] == middle[0]);
        lemma_trim_start(s, i);
        let rest = s.skip(i);
        assert(rest =~= middle + back);
        let j = middle.len() as int;
        assert(rest[j - 1] == middle[j - 1]);
        assert forall|k: int| j <= k < rest.len() implies is_white_space(#[trigger] rest[k]) by {
            assert(rest[k] == back[k - j]);
        }
        lemma_trim_end(rest, j);
        assert(rest.take(j) =~= middle);
    } else {
        assert forall|k: int| 0 <= k < s.len() implies is_white_space(#[trigger] s[k]) by {
            if k < front.len() {
                assert(s[k] == front[k]);
            } else {
                assert(s[k] == back[k - front.len()]);
            }
        }
        lemma_trim_start(s, s.len() as int);
        assert(trim_start(s) =~= Seq::empty());
        assert(trimmed(s) =~= middle);
    }
}

/// A text without the separator is its own only piece, and the pieces of two texts with a
/// separator between them are those of the one followed by those of the other.
pub proof fn law_splitting_goes_by_the_separator(
    first: &str,
    second: &str,
    whole: &str,
    sep: char,
    of_first: Vec<String>,
    of_second: Vec<String>,
    of_whole: Vec<String>,
)
    requires
        call_ensures(split, (first, sep), of_first),
        call_ensures(split, (second, sep), of_second),
        call_ensures(split, (whole, sep), of_whole),
        whole@ == first@.push(sep) + second@,
    ensures
        of_whole@.len() == of_first@.len() + of_second@.len(),
        forall|i: int|
            0 <= i < of_first@.len() ==> (#[trigger] of_whole@[i])@ == of_first@[i]@,
        forall|i: int|
            0 <= i < of_second@.len() ==> of_whole@[of_first@.len() + i]@ == (
            #[trigger] of_second@[i])@,
        !first@.contains(sep) ==> of_first@.len() == 1 && of_first@[0]@ == first@,
        !second@.contains(sep) ==> of_second@.len() == 1 && of_second@[0]@ == second@,
{
    lemma_pieces_of_both(first@, sep, second@);
    if !first@.contains(sep) {
        lemma_one_piece(first@, sep);
        assert(texts(of_first@)[0] == of_first@[0]@);
    }
    if !second@.contains(sep) {
        lemma_one_piece(second@, sep);
        assert(texts(of_second@)[0] == of_second@[0]@);
    }
    let a = texts(of_first@);
    let b = texts(of_second@);
    let c = texts(of_whole@);
    assert(c == a + b);
    assert(c.len() == of_whole@.len());
    assert forall|i: int| 0 <= i < of_first@.len() implies (#[trigger] of_whole@[i])@
        == of_first@[i]@ by {
        assert(c[i] == a[i]);
    }
    assert forall|i: int| 0 <= i < of_second@.len() implies of_whole@[of_first@.len() + i]@ == (
    #[trigger] of_second@[i])@ by {
        assert(c[of_first@.len() + i] == b[i]);
    }
}

proof fn lemma_replaced_in_both(a: Seq<char>, b: Seq<char>, from: char, with: Seq<char>)
    ensures
        replaced(a + b, from, with) == replaced(a, from, with) + replaced(b, from, with),
    decreases b.len(),
{
    if b.len() == 0 {
        assert(a + b =~= a);
    } else {
        lemma_replaced_in_both(a, b.drop_last(), from, with);
        assert((a + b).drop_last() =~= a + b.drop_last());
    }
    assert(replaced(a + b, from, with) =~= replaced(a, from, with) + replaced(b, from, with));
}

/// Replacing goes character by character: what becomes of two texts in a row is what becomes of
/// the one followed by what becomes of the other, a character that is replaced becomes the given
/// text, any other stays, and nothing becomes of nothing.
pub proof fn law_replacing_goes_by_the_character(
    first: &str,
    second: &str,
    whole: &str,
    from: char,
    with: &str,
    of_first: String,
    of_second: String,
    of_whole: String,
)
    requires
        call_ensures(replace, (first, from, with), of_first),
        call_ensures(replace, (second, from, with), of_second),
        call_ensures(replace, (whole, from, with), of_whole),
        whole@ == first@ + second@,
    ensures
        of_whole@ == of_first@ + of_second@,
        first@ == seq![from] ==> of_first@ == with@,
        first@.len() == 1 && first@[0] != from ==> of_first@ == first@,
        first@.len() == 0 ==> of_first@.len() == 0,
{
    lemma_replaced_in_both(first@, second@, from, with@);
    if first@.len() == 1 {
        let none = first@.drop_last();
        assert(none =~= Seq::empty());
        assert(replaced(none, from, with@) =~= Seq::empty());
        assert(of_first@ =~= (if first@[0] == from {
            with@
        } else {
            first@
        }));
    }
}

/// A text contains another exactly if it is that other with something before and behind it, and
/// starts with it exactly if it is that other with something behind it.
pub proof fn law_containing_is_standing_between(
    s: &str,
    pattern: &str,
    contained: bool,
    in_front: bool,
)
    requires
        call_ensures(contains, (s, pattern), contained),
        call_ensures(starts_with, (s, pattern), in_front),
    ensures
        contained <==> exists|a: Seq<char>, b: Seq<char>| s@ == #[trigger] (a + pattern@ + b),
        in_front <==> exists|b: Seq<char>| s@ == #[trigger] (pattern@ + b),
{
    if contained {
        let i = choose|i: int| occurs_at(s@, pattern@, i);
        let a = s@.take(i);
        let b = s@.skip(i + pattern@.len());
        assert(s@ =~= a + pattern@ + b);
    }
    if exists|a: Seq<char>, b: Seq<char>| s@ == #[trigger] (a + pattern@ + b) {
        let (a, b) = choose|a: Seq<char>, b: Seq<char>| s@ == #[trigger] (a + pattern@ + b);
        assert(s@.subrange(a.len() as int, (a.len() + pattern@.len()) as int) =~= pattern@);
        assert(occurs_at(s@, pattern@, a.len() as int));
    }
    if in_front {
        let b = s@.skip(pattern@.len() as int);
        assert(s@ =~= pattern@ + b);
    }
    if exists|b: Seq<char>| s@ == #[trigger] (pattern@ + b) {
        let b = choose|b: Seq<char>| s@ == #[trigger] (pattern@ + b);
        assert(s@.subrange(0, pattern@.len() as int) =~= pattern@);
    }
}

/// Two texts are equal but for the case of ASCII letters exactly if they are as long as each
/// other and each character is the other's, or the same letter from `A` to `Z` in the other case.
pub proof fn law_ascii_case_is_ignored(a: &str, b: &str, r: bool)
    requires
        call_ensures(eq_ignore_ascii_case, (a, b), r),
    ensures
        r <==> a@.len() == b@.len() && forall|i: int|
            0 <= i < a@.len() ==> {
                let c = #[trigger] a@[i] as u32;
                let d = b@[i] as u32;
                c == d || (65 <= c <= 90 && d == c + 32) || (65 <= d <= 90 && c == d + 32)
            },
{
    assert forall|i: int| 0 <= i < a@.len() && a@.len() == b@.len() implies (ascii_lower(
        #[trigger] a@[i],
    ) == ascii_lower(b@[i]) <==> {
        let c = a@[i] as u32;
        let d = b@[i] as u32;
        c == d || (65 <= c <= 90 && d == c + 32) || (65 <= d <= 90 && c == d + 32)
    }) by {}
}

/// Decimal digits are read as they are written: one digit stands for itself, a digit behind a
/// number makes ten times the number and the digit, and nothing else behind a number makes one.
/// What is greater than the greatest number makes none. A plus sign may stand in front.
pub proof fn law_numbers_are_read_digit_by_digit(s: Seq<char>, c: char, max: nat)
    ensures
        unsigned_number(Seq::empty(), max) is None,
        unsigned_number(seq!['+'], max) is None,
        unsigned_number(seq![c], max) == (if 48 <= c as u32 <= 57 && c as u32 - 48 <= max {
            Some((c as u32 - 48) as nat)
        } else {
            None
        }),
        s.len() > 0 && s != seq!['+'] ==> unsigned_number(s.push(c), max) == (match unsigned_number(
            s,
            max,
        ) {
            Some(n) => if 48 <= c as u32 <= 57 && 10 * n + (c as u32 - 48) <= max {
                Some((10 * n + (c as u32 - 48)) as nat)
            } else {
                None
            },
            None => None,
        }),
        s.len() > 0 && s[0] != '+' ==> unsigned_number(seq!['+'] + s, max) == unsigned_number(s, max),
        s.len() > 0 && s[0] == '+' ==> unsigned_number(seq!['+'] + s, max) is None,
{
    reveal_with_fuel(digits_value, 2);
    let one = seq![c];
    assert(one.drop_last() =~= Seq::empty());
    assert(seq!['+'].skip(1) =~= Seq::<char>::empty());
    if c != '+' {
        assert(one[0] == c);
        assert(all_digits(one) <==> is_digit(c));
    }
    if s.len() > 0 && s != seq!['+'] {
        let longer = s.push(c);
        let before = without_plus(s);
        let after = without_plus(longer);
        assert(after =~= before.push(c));
        assert(s.len() == 1 && s[0] == '+' ==> s =~= seq!['+']);
        assert(before.len() > 0);
        assert(after.drop_last() =~= before);
        assert(after[before.len() as int] == c);
        assert(all_digits(after) <==> all_digits(before) && is_digit(c)) by {
            if all_digits(after) {
                assert forall|i: int| 0 <= i < before.len() implies is_digit(
                    #[trigger] before[i],
                ) by {
                    assert(after[i] == before[i]);
                }
                assert(is_digit(after[before.len() as int]));
            }
        }
        assert(digits_value(after) == digits_value(before) * 10 + digit_value(c));
    }
    if s.len() > 0 {
        let signed = seq!['+'] + s;
        assert(signed.skip(1) =~= s);
        if s[0] == '+' {
            assert(!is_digit(s[0]));
        }
    }
}

proof fn lemma_decimal_is_read(n: nat)
    ensures
        decimal(n).len() > 0,
        all_digits(decimal(n)),
        digits_value(decimal(n)) == n,
        n > 0 ==> decimal(n)[0] != '0',
    decreases n,
{
    reveal_with_fuel(digits_value, 2);
    if n < 10 {
        assert(decimal(n).drop_last() =~= Seq::empty());
    } else {
        lemma_decimal_is_read(n / 10);
        assert(decimal(n).drop_last() =~= decimal(n / 10));
    }
}

/// A number is read back from the digits that it is written in, of which there are no more than
/// it takes: none but zero itself starts with a zero.
pub proof fn law_written_numbers_are_read_back(n: u64, text: String, s: &str, r: Option<u64>)
    requires
        call_ensures(decimal_text, (n,), text),
        s@ == text@,
        call_ensures(parse_u64, (s,), r),
    ensures
        r == Some(n),
        forall|i: int| 0 <= i < text@.len() ==> '0' <= #[trigger] text@[i] <= '9',
        n > 0 ==> text@[0] != '0',
        n == 0 ==> text@ == seq!['0'],
{
    lemma_decimal_is_read(n as nat);
    let digits = decimal(n as nat);
    assert(is_digit(digits[0]));
    assert(without_plus(digits) == digits);
    assert forall|i: int| 0 <= i < text@.len() implies '0' <= #[trigger] text@[i] <= '9' by {
        assert(is_digit(digits[i]));
    }
}

/// The characters of a list's strings are those of each, in order.
pub proof fn law_lists_are_seen_string_by_string(list: Seq<String>)
    ensures
        texts(list).len() == list.len(),
        forall|i: int| 0 <= i < list.len() ==> #[trigger] texts(list)[i] == list[i]@,
{
}

proof fn lemma_trim_end_away(s: Seq<char>)
    ensures
        trim_end(s).len() == 0 ==> forall|i: int| 0 <= i < s.len() ==> is_white_space(
            #[trigger] s[i],
        ),
    decreases s.len(),
{
    if s.len() > 0 && is_white_space(s.last()) {
        let rest = s.drop_last();
        lemma_trim_end_away(rest);
        if trim_end(s).len() == 0 {
            assert forall|i: int| 0 <= i < s.len() implies is_white_space(#[trigger] s[i]) by {
                if i < rest.len() {
                    assert(is_white_space(rest[i]));
                }
            }
        }
    }
}

proof fn lemma_trim_start_away(s: Seq<char>)
    ensures
        trim_start(s).len() == 0 ==> forall|i: int| 0 <= i < s.len() ==> is_white_space(
            #[trigger] s[i],
        ),
        trim_start(s).len() > 0 ==> !is_white_space(trim_start(s)[0]),
    decreases s.len(),
{
    if s.len() > 0 && is_white_space(s[0]) {
        let rest = s.skip(1);
        lemma_trim_start_away(rest);
        if trim_start(s).len() == 0 {
            assert forall|i: int| 0 <= i < s.len() implies is_white_space(#[trigger] s[i]) by {
                if i > 0 {
                    assert(is_white_space(rest[i - 1]));
                }
            }
        }
    }
}

/// Nothing is left of a text exactly if all of it is white space.
pub proof fn lemma_trimmed_away(s: Seq<char>)
    ensures
        trimmed(s).len() == 0 <==> forall|i: int| 0 <= i < s.len() ==> is_white_space(
            #[trigger] s[i],
        ),
{
    lemma_trim_start_away(s);
    lemma_trim_end_away(trim_start(s));
    let none = Seq::<char>::empty();
    if forall|i: int| 0 <= i < s.len() ==> is_white_space(#[trigger] s[i]) {
        lemma_trimmed_middle(s, none, none);
        assert(s + none + none =~= s);
    }
}

/// A text stands in another exactly if that is the text with something before and behind it.
pub proof fn lemma_occurs_between(s: Seq<char>, pattern: Seq<char>)
    ensures
        occurs_in(s, pattern) <==> exists|a: Seq<char>, b: Seq<char>| s == #[trigger] (a + pattern
            + b),
{
    if occurs_in(s, pattern) {
        let i = choose|i: int| occurs_at(s, pattern, i);
        let a = s.take(i);
        let b = s.skip(i + pattern.len());
        assert(s =~= a + pattern + b);
    }
    if exists|a: Seq<char>, b: Seq<char>| s == #[trigger] (a + pattern + b) {
        let (a, b) = choose|a: Seq<char>, b: Seq<char>| s == #[trigger] (a + pattern + b);
        assert(s.subrange(a.len() as int, (a.len() + pattern.len()) as int) =~= pattern);
        assert(occurs_at(s, pattern, a.len() as int));
    }
}

} // verus!
