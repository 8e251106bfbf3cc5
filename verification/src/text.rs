//! Character-level helpers shared by the parsers and formatters: turning
//! strings into character vectors and back, and comparing them.
use vstd::prelude::*;

verus! {

/// `String::push` from std: appends one character.
#[verifier::external_body]
pub(crate) fn string_push(text: &mut String, ch: char)
    ensures
        final(text)@ == old(text)@.push(ch),
{
    text.push(ch);
}

/// The characters of `text`, in order.
pub fn chars_of(text: &str) -> (chars: Vec<char>)
    ensures
        chars@ == text@,
{
    let mut chars: Vec<char> = Vec::new();
    for ch in it: text.chars()
        invariant
            chars@ == it.seq().take(it.index() as int),
    {
        chars.push(ch);
    }
    chars
}

/// A string holding `chars[start..end]`.
pub fn string_from_range(chars: &Vec<char>, start: usize, end: usize) -> (text: String)
    requires
        start <= end <= chars@.len(),
    ensures
        text@ == chars@.subrange(start as int, end as int),
{
    let mut text = String::new();
    let mut index = start;
    while index < end
        invariant
            start <= index <= end <= chars@.len(),
            text@ == chars@.subrange(start as int, index as int),
        decreases end - index,
    {
        string_push(&mut text, chars[index]);
        index += 1;
    }
    text
}

/// Whether two strings hold the same characters.
pub fn str_equal(left: &str, right: &str) -> (equal: bool)
    ensures
        equal == (left@ == right@),
{
    let left_chars = chars_of(left);
    let right_chars = chars_of(right);
    if left_chars.len() != right_chars.len() {
        return false;
    }
    let mut index: usize = 0;
    while index < left_chars.len()
        invariant
            left_chars@ == left@,
            right_chars@ == right@,
            left_chars@.len() == right_chars@.len(),
            index <= left_chars@.len(),
            forall|j: int| 0 <= j < index ==> left_chars@[j] == right_chars@[j],
        decreases left_chars@.len() - index,
    {
        if left_chars[index] != right_chars[index] {
            assert(left@[index as int] != right@[index as int]);
            return false;
        }
        index += 1;
    }
    assert(left_chars@ =~= right_chars@);
    true
}


/// Whether `pattern` occurs in `text` starting at `at`.
pub open spec fn matches_at(text: Seq<char>, at: int, pattern: Seq<char>) -> bool {
    0 <= at && at + pattern.len() <= text.len() && text.subrange(at, at + pattern.len()) == pattern
}

/// The first position at or after `from` where `pattern` occurs in `text`.
pub open spec fn find_from(text: Seq<char>, from: int, pattern: Seq<char>) -> Option<int>
    decreases text.len() + 1 - from,
{
    if from < 0 || from + pattern.len() > text.len() {
        None
    } else if matches_at(text, from, pattern) {
        Some(from)
    } else {
        find_from(text, from + 1, pattern)
    }
}

pub open spec fn contains_pattern(text: Seq<char>, pattern: Seq<char>) -> bool {
    find_from(text, 0, pattern) is Some
}

proof fn lemma_find_from_bounds(text: Seq<char>, from: int, pattern: Seq<char>)
    ensures
        find_from(text, from, pattern) matches Some(at) ==> from <= at && matches_at(text, at, pattern),
    decreases text.len() + 1 - from,
{
    if from >= 0 && from + pattern.len() <= text.len() && !matches_at(text, from, pattern) {
        lemma_find_from_bounds(text, from + 1, pattern);
    }
}

fn matches_here(text: &Vec<char>, at: usize, pattern: &Vec<char>) -> (found: bool)
    requires
        at + pattern@.len() <= text@.len(),
    ensures
        found == matches_at(text@, at as int, pattern@),
{
    let text_len = text.len();
    let mut k: usize = 0;
    while k < pattern.len()
        invariant
            text_len == text@.len(),
            at + pattern@.len() <= text@.len(),
            k <= pattern@.len(),
            forall|j: int| 0 <= j < k ==> text@[at + j] == pattern@[j],
        decreases pattern@.len() - k,
    {
        if text[at + k] != pattern[k] {
            assert(text@.subrange(at as int, at + pattern@.len())[k as int] != pattern@[k as int]);
            return false;
        }
        k += 1;
    }
    assert(text@.subrange(at as int, at + pattern@.len()) =~= pattern@);
    true
}

/// The first position at or after `from` where `pattern` occurs in `text`.
pub fn find_pattern(text: &Vec<char>, from: usize, pattern: &Vec<char>) -> (found: Option<usize>)
    ensures
        match find_from(text@, from as int, pattern@) {
            Some(at) => found == Some(at as usize),
            None => found is None,
        },
{
    proof {
        lemma_find_from_bounds(text@, from as int, pattern@);
    }
    if pattern.len() > text.len() || from > text.len() - pattern.len() {
        return None;
    }
    let last = text.len() - pattern.len();
    let mut at = from;
    loop
        invariant
            from <= at <= last,
            last == text@.len() - pattern@.len(),
            find_from(text@, from as int, pattern@) == find_from(text@, at as int, pattern@),
        decreases last - at,
    {
        if matches_here(text, at, pattern) {
            return Some(at);
        }
        if at == last {
            assert(find_from(text@, at as int + 1, pattern@) is None);
            return None;
        }
        at += 1;
    }
}

/// Whether `pattern` occurs anywhere in `text`.
pub fn contains_str(text: &str, pattern: &str) -> (found: bool)
    ensures
        found == contains_pattern(text@, pattern@),
{
    let text_chars = chars_of(text);
    let pattern_chars = chars_of(pattern);
    find_pattern(&text_chars, 0, &pattern_chars).is_some()
}

pub open spec fn is_digit(c: char) -> bool {
    '0' <= c <= '9'
}

pub open spec fn digits_value(text: Seq<char>) -> nat
    decreases text.len(),
{
    if text.len() == 0 { 0 } else { digits_value(text.drop_last()) * 10 + (text.last() as nat - '0' as nat) as nat }
}

/// The decimal digits of a number, most significant first.
pub open spec fn decimal(n: nat) -> Seq<char>
    decreases n,
{
    if n < 10 {
        seq![digit_char(n)]
    } else {
        decimal(n / 10) + seq![digit_char(n % 10)]
    }
}

pub open spec fn digit_char(d: nat) -> char {
    if d == 0 { '0' } else if d == 1 { '1' } else if d == 2 { '2' } else if d == 3 { '3' }
    else if d == 4 { '4' } else if d == 5 { '5' } else if d == 6 { '6' } else if d == 7 { '7' }
    else if d == 8 { '8' } else { '9' }
}

fn digit(d: u64) -> (ch: char)
    requires
        d < 10,
    ensures
        ch == digit_char(d as nat),
{
    if d == 0 { '0' } else if d == 1 { '1' } else if d == 2 { '2' } else if d == 3 { '3' }
    else if d == 4 { '4' } else if d == 5 { '5' } else if d == 6 { '6' } else if d == 7 { '7' }
    else if d == 8 { '8' } else { '9' }
}

/// Appends the characters of `suffix` to `text`.
pub fn push_text(text: &mut String, suffix: &str)
    ensures
        final(text)@ == old(text)@ + suffix@,
{
    let chars = chars_of(suffix);
    let mut i: usize = 0;
    while i < chars.len()
        invariant
            i <= chars@.len(),
            chars@ == suffix@,
            text@ == old(text)@ + chars@.take(i as int),
        decreases chars@.len() - i,
    {
        assert(chars@.take(i + 1) =~= chars@.take(i as int).push(chars@[i as int]));
        string_push(text, chars[i]);
        i += 1;
    }
    assert(chars@.take(i as int) =~= chars@);
}

/// Appends the decimal form of `n` to `text`.
pub fn push_decimal(text: &mut String, n: u64)
    ensures
        final(text)@ == old(text)@ + decimal(n as nat),
    decreases n,
{
    if n >= 10 {
        push_decimal(text, n / 10);
    }
    string_push(text, digit(n % 10));
    assert(final(text)@ =~= old(text)@ + decimal(n as nat));
}

} // verus!
