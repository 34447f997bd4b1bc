//! Text helpers for the readings of `/proc`: characters of a line, its
//! whitespace-separated words, substrings, and decimal numbers read and
//! written the way Rust's standard library does it.

use vstd::prelude::*;

verus! {

/// Unicode `White_Space`, the property that `char::is_whitespace` tests.
pub open spec fn is_whitespace(c: char) -> bool {
    ||| ('\u{9}' <= c && c <= '\u{d}')
    ||| c == ' '
    ||| c == '\u{85}'
    ||| c == '\u{a0}'
    ||| c == '\u{1680}'
    ||| ('\u{2000}' <= c && c <= '\u{200a}')
    ||| c == '\u{2028}'
    ||| c == '\u{2029}'
    ||| c == '\u{202f}'
    ||| c == '\u{205f}'
    ||| c == '\u{3000}'
}

/// The maximal runs of non-whitespace characters of `s`, in order: what
/// `str::split_whitespace` yields.
pub open spec fn split_words(s: Seq<char>) -> Seq<Seq<char>>
    decreases s.len(),
{
    if s.len() == 0 {
        Seq::empty()
    } else {
        let before = split_words(s.drop_last());
        let c = s.last();
        if is_whitespace(c) {
            before
        } else if s.len() >= 2 && !is_whitespace(s[s.len() - 2]) {
            before.update(before.len() - 1, before.last().push(c))
        } else {
            before.push(seq![c])
        }
    }
}

/// Whether `pattern` occurs in `s` starting at `start`.
pub open spec fn occurs_at(s: Seq<char>, pattern: Seq<char>, start: int) -> bool {
    0 <= start && start + pattern.len() <= s.len() && s.subrange(start, start + pattern.len())
        == pattern
}

/// Whether `pattern` occurs somewhere in `s` (`str::contains`).
pub open spec fn contains_text(s: Seq<char>, pattern: Seq<char>) -> bool {
    exists|start: int| occurs_at(s, pattern, start)
}

/// Whether `s` begins with `pattern` (`str::starts_with`).
pub open spec fn starts_with_text(s: Seq<char>, pattern: Seq<char>) -> bool {
    occurs_at(s, pattern, 0)
}

pub open spec fn is_digit(c: char) -> bool {
    '0' <= c && c <= '9'
}

pub open spec fn digit_value(c: char) -> nat {
    (c as int - '0' as int) as nat
}

pub open spec fn digit_char(d: nat) -> char {
    (d + '0' as int) as char
}

/// The number that a string of decimal digits spells.
pub open spec fn decimal_value(digits: Seq<char>) -> nat
    decreases digits.len(),
{
    if digits.len() == 0 {
        0
    } else {
        decimal_value(digits.drop_last()) * 10 + digit_value(digits.last())
    }
}

pub open spec fn all_digits(s: Seq<char>) -> bool {
    forall|i: int| 0 <= i < s.len() ==> is_digit(#[trigger] s[i])
}

/// The digits of an unsigned number: one leading `+` is dropped.
pub open spec fn unsigned_digits(s: Seq<char>) -> Seq<char> {
    if s.len() > 0 && s[0] == '+' {
        s.drop_first()
    } else {
        s
    }
}

/// What `str::parse` gives for an unsigned integer type whose largest value
/// is `max`: an optional `+`, then at least one decimal digit and nothing else,
/// and a value that fits.
pub open spec fn parse_unsigned(s: Seq<char>, max: nat) -> Option<nat> {
    let digits = unsigned_digits(s);
    if digits.len() > 0 && all_digits(digits) && decimal_value(digits) <= max {
        Some(decimal_value(digits))
    } else {
        None
    }
}

/// The decimal digits of `n`, without leading zeros (`0` for zero).
pub open spec fn decimal_text(n: nat) -> Seq<char>
    decreases n,
{
    if n < 10 {
        seq![digit_char(n)]
    } else {
        decimal_text(n / 10).push(digit_char(n % 10))
    }
}

/// The decimal text of a signed number, with a `-` before a negative one.
pub open spec fn signed_decimal_text(n: int) -> Seq<char> {
    if n < 0 {
        seq!['-'] + decimal_text((-n) as nat)
    } else {
        decimal_text(n as nat)
    }
}


/// Whether `c` is whitespace (`char::is_whitespace`).
pub fn is_whitespace_char(c: char) -> (b: bool)
    ensures
        b == is_whitespace(c),
{
    ('\u{9}' <= c && c <= '\u{d}') || c == ' ' || c == '\u{85}' || c == '\u{a0}' || c
        == '\u{1680}' || ('\u{2000}' <= c && c <= '\u{200a}') || c == '\u{2028}' || c
        == '\u{2029}' || c == '\u{202f}' || c == '\u{205f}' || c == '\u{3000}'
}

/// The whitespace-separated words of `s`, in order.
pub fn words_of(s: &[char]) -> (words: Vec<Vec<char>>)
    ensures
        words@.len() == split_words(s@).len(),
        forall|k: int| 0 <= k < words@.len() ==> #[trigger] words@[k]@ == split_words(s@)[k],
{
    let mut words: Vec<Vec<char>> = Vec::new();
    let ghost mut done: Seq<Seq<char>> = Seq::empty();
    let mut current: Vec<char> = Vec::new();
    let mut in_word: bool = false;
    let mut i: usize = 0;
    while i < s.len()
        invariant
            0 <= i <= s@.len(),
            words@.len() == done.len(),
            forall|k: int| 0 <= k < words@.len() ==> #[trigger] words@[k]@ == done[k],
            in_word ==> current@.len() > 0,
            !in_word ==> current@.len() == 0,
            in_word == (i > 0 && !is_whitespace(s@[i - 1])),
            split_words(s@.take(i as int)) == (if in_word {
                done.push(current@)
            } else {
                done
            }),
        decreases s@.len() - i,
    {
        let c = s[i];
        let ghost before = s@.take(i as int);
        assert(s@.take(i + 1).drop_last() == before);
        assert(s@.take(i + 1).last() == c);
        if is_whitespace_char(c) {
            if in_word {
                proof {
                    done = done.push(current@);
                }
                assert(split_words(s@.take(i + 1)) == done);
                words.push(current);
                current = Vec::new();
                in_word = false;
            }
        } else {
            let ghost old_current = current@;
            if in_word {
                assert(s@.take(i + 1)[i - 1] == s@[i - 1]);
            }
            current.push(c);
            if in_word {
                assert(done.push(old_current).update(done.len() as int, old_current.push(c))
                    =~= done.push(current@));
            } else {
                assert(current@ =~= seq![c]);
            }
            in_word = true;
        }
        i = i + 1;
    }
    if in_word {
        proof {
            done = done.push(current@);
        }
        words.push(current);
    }
    assert(s@.take(s@.len() as int) == s@);
    words
}

/// The word at position `n` of `s`, counting from zero (`split_whitespace().nth(n)`).
pub fn word_at(s: &[char], n: usize) -> (word: Option<Vec<char>>)
    ensures
        match word {
            Some(w) => n < split_words(s@).len() && w@ == split_words(s@)[n as int],
            None => n >= split_words(s@).len(),
        },
{
    let words = words_of(s);
    if n < words.len() {
        let w = words[n].clone();
        assert(w@ == words@[n as int]@);
        Some(w)
    } else {
        None
    }
}

/// Whether `pattern` occurs in `s` at `start`.
fn matches_at(s: &[char], pattern: &[char], start: usize) -> (b: bool)
    requires
        start + pattern@.len() <= s@.len(),
    ensures
        b == occurs_at(s@, pattern@, start as int),
{
    let n: usize = s.len();
    let mut j: usize = 0;
    while j < pattern.len()
        invariant
            start + pattern@.len() <= s@.len(),
            n == s@.len(),
            0 <= j <= pattern@.len(),
            forall|k: int| 0 <= k < j ==> s@[start + k] == pattern@[k],
        decreases pattern@.len() - j,
    {
        if s[start + j] != pattern[j] {
            assert(s@.subrange(start as int, start + pattern@.len())[j as int] != pattern@[j as int]);
            return false;
        }
        j = j + 1;
    }
    assert(s@.subrange(start as int, start + pattern@.len()) =~= pattern@);
    true
}

/// Whether `pattern` occurs somewhere in `s`.
pub fn contains_chars(s: &[char], pattern: &[char]) -> (b: bool)
    ensures
        b == contains_text(s@, pattern@),
{
    if pattern.len() > s.len() {
        assert forall|start: int| !occurs_at(s@, pattern@, start) by {}
        return false;
    }
    if pattern.len() == 0 {
        assert(s@.subrange(0, 0) =~= pattern@);
        assert(occurs_at(s@, pattern@, 0));
        return true;
    }
    let n: usize = s.len();
    let last: usize = n - pattern.len();
    let mut start: usize = 0;
    while start <= last
        invariant
            n == s@.len(),
            pattern@.len() > 0,
            last + pattern@.len() == s@.len(),
            0 <= start <= last + 1,
            forall|k: int| 0 <= k < start ==> !occurs_at(s@, pattern@, k),
        decreases last + 1 - start,
    {
        if matches_at(s, pattern, start) {
            return true;
        }
        start = start + 1;
    }
    assert forall|k: int| !occurs_at(s@, pattern@, k) by {
        if 0 <= k < start {
        }
    }
    false
}

/// Whether `s` begins with `pattern`.
pub fn starts_with_chars(s: &[char], pattern: &[char]) -> (b: bool)
    ensures
        b == starts_with_text(s@, pattern@),
{
    if pattern.len() > s.len() {
        false
    } else {
        matches_at(s, pattern, 0)
    }
}

proof fn lemma_decimal_value_prefix(digits: Seq<char>, k: int)
    requires
        all_digits(digits),
        0 <= k <= digits.len(),
    ensures
        decimal_value(digits.take(k)) <= decimal_value(digits),
    decreases digits.len(),
{
    if k < digits.len() {
        let rest = digits.drop_last();
        assert(rest.take(k) == digits.take(k));
        assert forall|i: int| 0 <= i < rest.len() implies is_digit(#[trigger] rest[i]) by {
            assert(rest[i] == digits[i]);
        }
        lemma_decimal_value_prefix(rest, k);
    } else {
        assert(digits.take(k) == digits);
    }
}

/// Reads an unsigned decimal number no larger than `max`, as `str::parse`
/// does for the unsigned type whose largest value is `max`.
pub fn parse_unsigned_chars(s: &[char], max: u64) -> (r: Option<u64>)
    ensures
        match r {
            Some(v) => parse_unsigned(s@, max as nat) == Some(v as nat),
            None => parse_unsigned(s@, max as nat) is None,
        },
{
    let start: usize = if s.len() > 0 && s[0] == '+' {
        1
    } else {
        0
    };
    let ghost digits = unsigned_digits(s@);
    assert(digits == s@.subrange(start as int, s@.len() as int));
    if start == s.len() {
        return None;
    }
    let mut value: u64 = 0;
    let mut i: usize = start;
    while i < s.len()
        invariant
            start <= i <= s@.len(),
            digits == unsigned_digits(s@),
            digits == s@.subrange(start as int, s@.len() as int),
            all_digits(digits.take(i - start)),
            value == decimal_value(digits.take(i - start)),
            value <= max,
        decreases s@.len() - i,
    {
        let c = s[i];
        assert(digits[i - start] == c);
        if !('0' <= c && c <= '9') {
            assert(!all_digits(digits));
            return None;
        }
        let d: u64 = (c as u32 - '0' as u32) as u64;
        let ghost prefix = digits.take(i + 1 - start);
        assert(prefix.drop_last() == digits.take(i - start));
        assert(prefix.last() == c);
        assert forall|j: int| 0 <= j < prefix.len() implies is_digit(#[trigger] prefix[j]) by {
            if j < prefix.len() - 1 {
                assert(prefix[j] == digits.take(i - start)[j]);
            }
        }
        assert(decimal_value(prefix) == value * 10 + d);
        let next: Option<u64> = match value.checked_mul(10) {
            Some(m) => m.checked_add(d),
            None => None,
        };
        match next {
            Some(v) if v <= max => {
                value = v;
            },
            _ => {
                proof {
                    if all_digits(digits) {
                        lemma_decimal_value_prefix(digits, (i + 1 - start) as int);
                    }
                }
                return None;
            },
        }
        i = i + 1;
    }
    assert(digits.take(i - start) == digits);
    Some(value)
}

fn digit_to_char(d: u64) -> (c: char)
    requires
        d < 10,
    ensures
        c == digit_char(d as nat),
{
    match d {
        0 => '0',
        1 => '1',
        2 => '2',
        3 => '3',
        4 => '4',
        5 => '5',
        6 => '6',
        7 => '7',
        8 => '8',
        _ => '9',
    }
}

/// Appends the decimal digits of `n` to `out`.
pub fn push_decimal(n: u64, out: &mut Vec<char>)
    ensures
        final(out)@ == old(out)@ + decimal_text(n as nat),
    decreases n,
{
    if n >= 10 {
        push_decimal(n / 10, out);
    }
    out.push(digit_to_char(n % 10));
}

/// Appends the decimal text of the signed `n` to `out`.
pub fn push_signed_decimal(n: i64, out: &mut Vec<char>)
    ensures
        final(out)@ == old(out)@ + signed_decimal_text(n as int),
{
    if n < 0 {
        out.push('-');
        let magnitude: u64 = if n == i64::MIN {
            9223372036854775808u64
        } else {
            (-n) as u64
        };
        let ghost pushed = out@;
        push_decimal(magnitude, out);
        assert(out@ =~= old(out)@ + signed_decimal_text(n as int));
    } else {
        push_decimal(n as u64, out);
    }
}


/// Reads a `u32` as `str::parse::<u32>` does.
pub fn parse_u32(s: &str) -> (r: Option<u32>)
    ensures
        match r {
            Some(v) => parse_unsigned(s@, u32::MAX as nat) == Some(v as nat),
            None => parse_unsigned(s@, u32::MAX as nat) is None,
        },
{
    let chars = chars_of(s);
    match parse_unsigned_chars(chars.as_slice(), u32::MAX as u64) {
        Some(v) => Some(v as u32),
        None => None,
    }
}

/// Whether `x` is one of `v`.
pub fn contains_u32(v: &[u32], x: u32) -> (b: bool)
    ensures
        b == v@.contains(x),
{
    let mut i: usize = 0;
    while i < v.len()
        invariant
            0 <= i <= v@.len(),
            forall|k: int| 0 <= k < i ==> v@[k] != x,
        decreases v@.len() - i,
    {
        if v[i] == x {
            assert(v@[i as int] == x);
            return true;
        }
        i = i + 1;
    }
    false
}


proof fn lemma_decimal_text_digits(n: nat)
    ensures
        decimal_text(n).len() > 0,
        all_digits(decimal_text(n)),
        decimal_value(decimal_text(n)) == n,
    decreases n,
{
    if n < 10 {
        let c = digit_char(n);
        assert(c as int == n + '0' as int);
        assert(decimal_text(n).drop_last() =~= Seq::<char>::empty());
        assert(decimal_value(Seq::<char>::empty()) == 0);
    } else {
        lemma_decimal_text_digits(n / 10);
        let text = decimal_text(n);
        let c = digit_char(n % 10);
        assert(c as int == n % 10 + '0' as int);
        assert(text.drop_last() == decimal_text(n / 10));
        assert forall|i: int| 0 <= i < text.len() implies is_digit(#[trigger] text[i]) by {
            if i < text.len() - 1 {
                assert(text[i] == decimal_text(n / 10)[i]);
            }
        }
    }
}

/// Reading back the decimal text of a number that fits gives the number.
pub proof fn lemma_parse_decimal_text(n: nat, max: nat)
    requires
        n <= max,
    ensures
        parse_unsigned(decimal_text(n), max) == Some(n),
{
    lemma_decimal_text_digits(n);
    assert(is_digit(decimal_text(n)[0]));
    assert(unsigned_digits(decimal_text(n)) == decimal_text(n));
}

/// Reading a number into a smaller type gives the same number, or nothing
/// when it does not fit.
pub proof fn lemma_parse_unsigned_bound(s: Seq<char>, small: nat, large: nat)
    requires
        small <= large,
    ensures
        parse_unsigned(s, small) == (match parse_unsigned(s, large) {
            Some(v) => if v <= small {
                Some(v)
            } else {
                None
            },
            None => None,
        }),
{
}

proof fn lemma_words_after_letter(s: Seq<char>)
    requires
        s.len() > 0,
        !is_whitespace(s.last()),
    ensures
        split_words(s).len() > 0,
    decreases s.len(),
{
    let rest = s.drop_last();
    if s.len() >= 2 && !is_whitespace(s[s.len() - 2]) {
        assert(rest.last() == s[s.len() - 2]);
        lemma_words_after_letter(rest);
    }
}

/// The words of a text are not empty and hold no whitespace.
pub proof fn lemma_split_words_shape(s: Seq<char>)
    ensures
        forall|k: int|
            0 <= k < split_words(s).len() ==> (#[trigger] split_words(s)[k]).len() > 0 && forall|
                j: int,
            |
                0 <= j < split_words(s)[k].len() ==> !is_whitespace(#[trigger] split_words(s)[k][j]),
    decreases s.len(),
{
    if s.len() > 0 {
        let rest = s.drop_last();
        lemma_split_words_shape(rest);
        let before = split_words(rest);
        let words = split_words(s);
        let c = s.last();
        assert forall|k: int| 0 <= k < words.len() implies (#[trigger] words[k]).len() > 0 && forall|
            j: int,
        |
            0 <= j < words[k].len() ==> !is_whitespace(#[trigger] words[k][j]) by {
            if k < before.len() && !(k == before.len() - 1 && !is_whitespace(c) && s.len() >= 2
                && !is_whitespace(s[s.len() - 2])) {
                assert(words[k] == before[k]);
            } else if k < before.len() {
                assert(words[k] == before[k].push(c));
                assert forall|j: int| 0 <= j < words[k].len() implies !is_whitespace(
                    #[trigger] words[k][j],
                ) by {
                    if j < before[k].len() {
                        assert(words[k][j] == before[k][j]);
                    }
                }
            } else {
                if is_whitespace(c) {
                    assert(words == before);
                } else if s.len() >= 2 && !is_whitespace(s[s.len() - 2]) {
                    assert(rest.last() == s[s.len() - 2]);
                    lemma_words_after_letter(rest);
                    assert(words.len() == before.len());
                } else {
                    assert(words == before.push(seq![c]));
                    assert(words[k] == seq![c]);
                }
            }
        }
    }
}

/// The characters of `s`, in order.
pub fn chars_of(s: &str) -> (chars: Vec<char>)
    ensures
        chars@ == s@,
{
    broadcast use vstd::string::group_string_axioms;

    let mut chars: Vec<char> = Vec::new();
    for c in it: s.chars()
        invariant
            it.seq() == s@,
            chars@ == it.seq().take(it.index()),
    {
        chars.push(c);
    }
    chars
}

/// std's `FromIterator<&char>` for `String` (`collect` over the characters):
/// the string holds exactly the given characters, in order.
#[verifier::external_body]
pub(crate) fn string_from_chars(chars: &[char]) -> (s: String)
    ensures
        s@ == chars@,
{
    chars.iter().collect()
}

} // verus!
