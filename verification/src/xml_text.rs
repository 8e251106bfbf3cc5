//! Searching the text of a Guitar Pro 7 score document: tag contents,
//! CDATA sections, whitespace-separated number lists and unsigned numbers
//! as Rust's integer parsing reads them. Text is held as characters.
use vstd::prelude::*;
use crate::text::{find_from, find_pattern, chars_of, is_digit, digits_value, matches_at};

verus! {

/// The Unicode White_Space property: tab, line feed, vertical tab, form
/// feed, carriage return, space, next line, no-break space, the Ogham space
/// mark, the en quad up to the hair space, the line and paragraph
/// separators, the narrow no-break space, the medium mathematical space and
/// the ideographic space.
pub open spec fn unicode_is_whitespace(c: char) -> bool {
    let code = c as u32;
    ||| 0x09 <= code <= 0x0D
    ||| code == 0x20
    ||| code == 0x85
    ||| code == 0xA0
    ||| code == 0x1680
    ||| 0x2000 <= code <= 0x200A
    ||| code == 0x2028
    ||| code == 0x2029
    ||| code == 0x202F
    ||| code == 0x205F
    ||| code == 0x3000
}

/// `char::is_whitespace` from std, which its documentation describes as the
/// White_Space property of the Unicode Character Database; the contract
/// lists the code points of that property.
#[verifier::external_body]
fn is_whitespace(c: char) -> (white: bool)
    ensures
        white == unicode_is_whitespace(c),
{
    c.is_whitespace()
}

/// The characters `text[start..end]`.
pub fn slice_chars(text: &Vec<char>, start: usize, end: usize) -> (part: Vec<char>)
    requires
        start <= end <= text@.len(),
    ensures
        part@ == text@.subrange(start as int, end as int),
{
    let mut part: Vec<char> = Vec::new();
    let mut i = start;
    while i < end
        invariant
            start <= i <= end <= text@.len(),
            part@ == text@.subrange(start as int, i as int),
        decreases end - i,
    {
        part.push(text[i]);
        i += 1;
        assert(part@ =~= text@.subrange(start as int, i as int));
    }
    part
}

/// The first position at or after `from` where `pattern` occurs.
pub fn find_text(text: &Vec<char>, from: usize, pattern: &str) -> (found: Option<usize>)
    ensures
        match found {
            Some(at) => find_from(text@, from as int, pattern@) == Some(at as int)
                && from <= at && at + pattern@.len() <= text@.len(),
            None => find_from(text@, from as int, pattern@) is None,
        },
{
    let pattern_chars = chars_of(pattern);
    find_chars(text, from, &pattern_chars)
}

/// The first position at or after `from` where `pattern` occurs.
pub fn find_chars(text: &Vec<char>, from: usize, pattern: &Vec<char>) -> (found: Option<usize>)
    ensures
        match found {
            Some(at) => find_from(text@, from as int, pattern@) == Some(at as int)
                && from <= at && at + pattern@.len() <= text@.len(),
            None => find_from(text@, from as int, pattern@) is None,
        },
{
    let n = text.len();
    proof {
        lemma_find_from_in_range(text@, from as int, pattern@);
    }
    find_pattern(text, from, pattern)
}

/// A found pattern lies within the text, at or after the start.
pub(crate) proof fn lemma_find_from_in_range(text: Seq<char>, from: int, pattern: Seq<char>)
    ensures
        find_from(text, from, pattern) matches Some(at) ==> from <= at && at + pattern.len() <= text.len() && matches_at(text, at, pattern),
    decreases text.len() + 1 - from,
{
    if from >= 0 && from + pattern.len() <= text.len() && !matches_at(text, from, pattern) {
        lemma_find_from_in_range(text, from + 1, pattern);
    }
}

/// Whether `pattern` occurs in `text`.
pub fn contains(text: &Vec<char>, pattern: &str) -> (found: bool)
    ensures
        found == (find_from(text@, 0, pattern@) is Some),
{
    find_text(text, 0, pattern).is_some()
}

// ---------------------------------------------------------------------
// Trimming

pub open spec fn skip_white(s: Seq<char>, i: int) -> int
    decreases s.len() - i,
{
    if 0 <= i < s.len() && unicode_is_whitespace(s[i]) { skip_white(s, i + 1) } else { i }
}

pub open spec fn back_white(s: Seq<char>, j: int, low: int) -> int
    decreases j - low,
{
    if low < j && j <= s.len() && unicode_is_whitespace(s[j - 1]) { back_white(s, j - 1, low) } else { j }
}

/// The text without leading and trailing whitespace (`str::trim`).
pub open spec fn trim(s: Seq<char>) -> Seq<char> {
    let a = skip_white(s, 0);
    s.subrange(a, back_white(s, s.len() as int, a))
}

proof fn lemma_skip_white_range(s: Seq<char>, i: int)
    requires
        0 <= i <= s.len(),
    ensures
        i <= skip_white(s, i) <= s.len(),
    decreases s.len() - i,
{
    if i < s.len() && unicode_is_whitespace(s[i]) {
        lemma_skip_white_range(s, i + 1);
    }
}

proof fn lemma_back_white_range(s: Seq<char>, j: int, low: int)
    requires
        0 <= low <= j <= s.len(),
    ensures
        low <= back_white(s, j, low) <= j,
    decreases j - low,
{
    if low < j && unicode_is_whitespace(s[j - 1]) {
        lemma_back_white_range(s, j - 1, low);
    }
}

/// The trimmed part of `text[start..end]`.
pub fn trimmed(text: &Vec<char>, start: usize, end: usize) -> (part: Vec<char>)
    requires
        start <= end <= text@.len(),
    ensures
        part@ == trim(text@.subrange(start as int, end as int)),
{
    let ghost s = text@.subrange(start as int, end as int);
    let mut a = start;
    while a < end && is_whitespace(text[a])
        invariant
            start <= a <= end <= text@.len(),
            s == text@.subrange(start as int, end as int),
            skip_white(s, 0) == skip_white(s, a - start),
        decreases end - a,
    {
        a += 1;
    }
    let mut b = end;
    proof {
        lemma_skip_white_range(s, 0);
    }
    while b > a && is_whitespace(text[b - 1])
        invariant
            start <= a <= b <= end <= text@.len(),
            s == text@.subrange(start as int, end as int),
            a - start == skip_white(s, 0),
            back_white(s, s.len() as int, a - start) == back_white(s, b - start, a - start),
        decreases b - a,
    {
        b -= 1;
    }
    let part = slice_chars(text, a, b);
    assert(part@ =~= s.subrange(a - start, b - start));
    part
}

// ---------------------------------------------------------------------
// Tags

pub open spec fn open_tag(tag: Seq<char>) -> Seq<char> {
    "<"@ + tag + ">"@
}

pub open spec fn close_tag(tag: Seq<char>) -> Seq<char> {
    "</"@ + tag + ">"@
}

/// Where the contents of the first `<tag>` end at the next `</tag>`.
pub open spec fn tag_span(text: Seq<char>, tag: Seq<char>) -> Option<(int, int)> {
    match find_from(text, 0, open_tag(tag)) {
        Some(p) => {
            let start = p + open_tag(tag).len();
            match find_from(text, start, close_tag(tag)) {
                Some(end) => Some((start, end)),
                None => None,
            }
        },
        None => None,
    }
}

/// The trimmed contents of the first `<tag>…</tag>`.
pub open spec fn tag_text(text: Seq<char>, tag: Seq<char>) -> Option<Seq<char>> {
    match tag_span(text, tag) {
        Some((start, end)) => Some(trim(text.subrange(start, end))),
        None => None,
    }
}

pub open spec fn starts_with(text: Seq<char>, prefix: Seq<char>) -> bool {
    prefix.len() <= text.len() && text.subrange(0, prefix.len() as int) == prefix
}

pub open spec fn ends_with(text: Seq<char>, suffix: Seq<char>) -> bool {
    suffix.len() <= text.len() && text.subrange(text.len() - suffix.len(), text.len() as int) == suffix
}

/// The trimmed contents of the first `<tag>…</tag>`, without a CDATA
/// wrapper when there is one.
pub open spec fn cdata_text(text: Seq<char>, tag: Seq<char>) -> Option<Seq<char>> {
    match tag_text(text, tag) {
        Some(content) => Some(
            if starts_with(content, "<![CDATA["@) && ends_with(content, "]]>"@) && content.len() >= 12 {
                content.subrange(9, content.len() - 3)
            } else {
                content
            },
        ),
        None => None,
    }
}

fn tag_pattern(tag: &str, closing: bool) -> (pattern: Vec<char>)
    ensures
        pattern@ == (if closing { close_tag(tag@) } else { open_tag(tag@) }),
{
    let mut pattern: Vec<char> = Vec::new();
    pattern.push('<');
    if closing {
        pattern.push('/');
    }
    let tag_chars = chars_of(tag);
    let mut i: usize = 0;
    let ghost head = pattern@;
    while i < tag_chars.len()
        invariant
            i <= tag_chars@.len(),
            tag_chars@ == tag@,
            pattern@ == head + tag_chars@.take(i as int),
        decreases tag_chars@.len() - i,
    {
        pattern.push(tag_chars[i]);
        i += 1;
        assert(pattern@ =~= head + tag_chars@.take(i as int));
    }
    pattern.push('>');
    proof {
        reveal_strlit("<");
        reveal_strlit("</");
        reveal_strlit(">");
        assert(tag_chars@.take(i as int) =~= tag@);
        assert(pattern@ =~= (if closing { close_tag(tag@) } else { open_tag(tag@) }));
    }
    pattern
}

/// The span of the contents of the first `<tag>…</tag>`.
pub fn find_tag_span(text: &Vec<char>, tag: &str) -> (span: Option<(usize, usize)>)
    ensures
        match span {
            Some((start, end)) => tag_span(text@, tag@) == Some((start as int, end as int)) && start <= end <= text@.len(),
            None => tag_span(text@, tag@) is None,
        },
{
    let text_len = text.len();
    let open = tag_pattern(tag, false);
    let close = tag_pattern(tag, true);
    proof {
        lemma_find_from_in_range(text@, 0, open@);
    }
    let found = find_pattern(text, 0, &open);
    match found {
        Some(p) => {
            assert(find_from(text@, 0, open@) == Some(p as int));
            assert(p + open@.len() <= text@.len());
            let start = p + open.len();
            proof {
                lemma_find_from_in_range(text@, start as int, close@);
            }
            let closing = find_pattern(text, start, &close);
            match closing {
                Some(end) => {
                    assert(find_from(text@, start as int, close@) == Some(end as int));
                    Some((start, end))
                },
                None => None,
            }
        },
        None => None,
    }
}

/// The trimmed contents of the first `<tag>…</tag>`.
pub fn extract_tag_text(text: &Vec<char>, tag: &str) -> (content: Option<Vec<char>>)
    ensures
        match tag_text(text@, tag@) {
            Some(t) => content is Some && content->Some_0@ == t,
            None => content is None,
        },
{
    match find_tag_span(text, tag) {
        Some((start, end)) => Some(trimmed(text, start, end)),
        None => None,
    }
}

/// The contents of the first `<tag>…</tag>`, without a CDATA wrapper.
pub fn extract_cdata_text(text: &Vec<char>, tag: &str) -> (content: Option<Vec<char>>)
    ensures
        match cdata_text(text@, tag@) {
            Some(t) => content is Some && content->Some_0@ == t,
            None => content is None,
        },
{
    match extract_tag_text(text, tag) {
        Some(content) => {
            let n = content.len();
            if n >= 12 && starts_with_chars(&content, "<![CDATA[") && ends_with_chars(&content, "]]>") {
                Some(slice_chars(&content, 9, n - 3))
            } else {
                Some(content)
            }
        },
        None => None,
    }
}

fn starts_with_chars(text: &Vec<char>, prefix: &str) -> (found: bool)
    ensures
        found == starts_with(text@, prefix@),
{
    let p = chars_of(prefix);
    if p.len() > text.len() {
        return false;
    }
    let mut i: usize = 0;
    while i < p.len()
        invariant
            p@ == prefix@,
            p@.len() <= text@.len(),
            i <= p@.len(),
            forall|k: int| 0 <= k < i ==> text@[k] == p@[k],
        decreases p@.len() - i,
    {
        if text[i] != p[i] {
            assert(text@.subrange(0, p@.len() as int)[i as int] != p@[i as int]);
            return false;
        }
        i += 1;
    }
    assert(text@.subrange(0, p@.len() as int) =~= p@);
    true
}

fn ends_with_chars(text: &Vec<char>, suffix: &str) -> (found: bool)
    ensures
        found == ends_with(text@, suffix@),
{
    let p = chars_of(suffix);
    if p.len() > text.len() {
        return false;
    }
    let n = text.len();
    let offset = n - p.len();
    let mut i: usize = 0;
    while i < p.len()
        invariant
            p@ == suffix@,
            n == text@.len(),
            offset == text@.len() - p@.len(),
            i <= p@.len(),
            forall|k: int| 0 <= k < i ==> text@[offset + k] == p@[k],
        decreases p@.len() - i,
    {
        if text[offset + i] != p[i] {
            assert(text@.subrange(offset as int, text@.len() as int)[i as int] != p@[i as int]);
            return false;
        }
        i += 1;
    }
    assert(text@.subrange(offset as int, text@.len() as int) =~= p@);
    true
}

// ---------------------------------------------------------------------
// Numbers

/// An unsigned number as Rust's integer parsing reads it: an optional `+`,
/// then one or more digits, with a value of at most `max`.
pub open spec fn unsigned_of(word: Seq<char>, max: nat) -> Option<nat> {
    digits_number(if word.len() > 0 && word[0] == '+' { word.drop_first() } else { word }, max)
}

proof fn lemma_digits_monotone(text: Seq<char>, n: int, m: int)
    requires
        0 <= n <= m <= text.len(),
        forall|j: int| 0 <= j < m ==> is_digit(#[trigger] text[j]),
    ensures
        digits_value(text.take(m)) >= digits_value(text.take(n)),
    decreases m - n,
{
    if m > n {
        lemma_digits_monotone(text, n, m - 1);
        assert(text.take(m).drop_last() =~= text.take(m - 1));
        assert(digits_value(text.take(m - 1)) * 10 >= digits_value(text.take(m - 1))) by (nonlinear_arith);
    }
}

pub open spec fn digits_number(digits: Seq<char>, max: nat) -> Option<nat> {
    if digits.len() > 0 && (forall|i: int| 0 <= i < digits.len() ==> is_digit(#[trigger] digits[i])) && digits_value(digits) <= max {
        Some(digits_value(digits))
    } else {
        None
    }
}

proof fn lemma_digit_step(value: u64, digit: u64, max: u64)
    requires
        digit <= 9,
    ensures
        (digit > max || value > (max - digit) / 10) ==> value * 10 + digit > max,
        !(digit > max || value > (max - digit) / 10) ==> value * 10 + digit <= max,
{
    if digit <= max {
        assert(value > (max - digit) / 10 ==> value * 10 + digit > max) by (nonlinear_arith)
            requires
                digit <= max;
        assert(value <= (max - digit) / 10 ==> value * 10 + digit <= max) by (nonlinear_arith)
            requires
                digit <= max;
    }
}

/// The number a run of digits denotes, if it is one of at most `max`.
fn parse_digits(digits: &Vec<char>, max: u64) -> (value: Option<u64>)
    ensures
        match digits_number(digits@, max as nat) {
            Some(n) => value == Some(n as u64),
            None => value is None,
        },
{
    let ghost d = digits@;
    if digits.len() == 0 {
        return None;
    }
    let mut value: u64 = 0;
    let mut i: usize = 0;
    while i < digits.len()
        invariant
            d == digits@,
            d.len() > 0,
            i <= d.len(),
            forall|j: int| 0 <= j < i ==> is_digit(#[trigger] d[j]),
            value == digits_value(d.take(i as int)),
            value <= max,
        decreases d.len() - i,
    {
        let c = digits[i];
        if !('0' <= c && c <= '9') {
            assert(!is_digit(d[i as int]));
            return None;
        }
        let digit = (c as u32 - '0' as u32) as u64;
        assert(d.take(i + 1).drop_last() =~= d.take(i as int));
        assert(digits_value(d.take(i + 1)) == value * 10 + digit);
        proof {
            lemma_digit_step(value, digit, max);
        }
        if digit > max || value > (max - digit) / 10 {
            proof {
                if forall|j: int| 0 <= j < d.len() ==> is_digit(#[trigger] d[j]) {
                    lemma_digits_monotone(d, i + 1, d.len() as int);
                    assert(d.take(d.len() as int) =~= d);
                }
            }
            return None;
        }
        value = value * 10 + digit;
        i += 1;
    }
    assert(d.take(i as int) =~= d);
    Some(value)
}

/// The unsigned number `word` denotes, if it is one of at most `max`.
pub fn parse_number(word: &Vec<char>, max: u64) -> (value: Option<u64>)
    ensures
        match unsigned_of(word@, max as nat) {
            Some(n) => value == Some(n as u64),
            None => value is None,
        },
{
    let start: usize = if word.len() > 0 && word[0] == '+' { 1 } else { 0 };
    let digits = slice_chars(word, start, word.len());
    assert(digits@ =~= (if word@.len() > 0 && word@[0] == '+' { word@.drop_first() } else { word@ }));
    parse_digits(&digits, max)
}

/// Splits at whitespace (`str::split_whitespace`); `word` is the word in
/// progress at `i`.
pub open spec fn words_from(s: Seq<char>, i: int, word: Seq<char>) -> Seq<Seq<char>>
    decreases s.len() - i,
{
    if i < 0 || i >= s.len() {
        if word.len() > 0 { seq![word] } else { Seq::empty() }
    } else if unicode_is_whitespace(s[i]) {
        (if word.len() > 0 { seq![word] } else { Seq::empty() }) + words_from(s, i + 1, Seq::empty())
    } else {
        words_from(s, i + 1, word.push(s[i]))
    }
}

pub open spec fn words(s: Seq<char>) -> Seq<Seq<char>> {
    words_from(s, 0, Seq::empty())
}

/// The words that are numbers of at most `max`, as numbers, in order.
pub open spec fn numbers_of(words: Seq<Seq<char>>, max: nat) -> Seq<nat>
    decreases words.len(),
{
    if words.len() == 0 {
        Seq::empty()
    } else {
        numbers_of(words.drop_last(), max) + match unsigned_of(words.last(), max) {
            Some(n) => seq![n],
            None => Seq::empty(),
        }
    }
}

/// The whitespace-separated numbers of at most `max` in `text`.
pub fn parse_numbers(text: &Vec<char>, max: u64) -> (numbers: Vec<u64>)
    ensures
        numbers@.map_values(|n: u64| n as nat) == numbers_of(words(text@), max as nat),
{
    let ghost s = text@;
    let ghost mut done: Seq<Seq<char>> = Seq::empty();
    let mut numbers: Vec<u64> = Vec::new();
    let mut word: Vec<char> = Vec::new();
    let mut i: usize = 0;
    while i < text.len()
        invariant
            s == text@,
            i <= s.len(),
            words(s) == done + words_from(s, i as int, word@),
            numbers@.map_values(|n: u64| n as nat) == numbers_of(done, max as nat),
        decreases s.len() - i,
    {
        let ghost old_word = word@;
        if is_whitespace(text[i]) {
            assert(words_from(s, i as int, old_word) == (if old_word.len() > 0 { seq![old_word] } else { Seq::empty() }) + words_from(s, i + 1, Seq::empty()));
            if word.len() > 0 {
                let parsed = parse_number(&word, max);
                proof {
                    let old_done = done;
                    done = done.push(word@);
                    assert(done.drop_last() =~= old_done);
                    assert(seq![word@] + words_from(s, i + 1, Seq::empty()) =~= seq![word@] + words_from(s, i + 1, Seq::empty()));
                    assert(old_done + (seq![word@] + words_from(s, i + 1, Seq::empty())) =~= done + words_from(s, i + 1, Seq::empty()));
                }
                match parsed {
                    Some(n) => {
                        proof {
                            assert(numbers@.push(n).map_values(|n: u64| n as nat) =~= numbers@.map_values(|n: u64| n as nat) + seq![n as nat]);
                        }
                        numbers.push(n);
                    },
                    None => {
                        assert(numbers_of(done, max as nat) =~= numbers_of(done.drop_last(), max as nat));
                    },
                }
                word = Vec::new();
                assert(words(s) == done + words_from(s, i + 1, word@));
            } else {
                proof {
                    assert(word@ =~= Seq::<char>::empty());
                    assert(Seq::<Seq<char>>::empty() + words_from(s, i + 1, Seq::empty()) =~= words_from(s, i + 1, Seq::empty()));
                }
            }
        } else {
            assert(words_from(s, i as int, old_word) == words_from(s, i + 1, old_word.push(s[i as int])));
            word.push(text[i]);
        }
        i += 1;
    }
    if word.len() > 0 {
        let parsed = parse_number(&word, max);
        proof {
            let old_done = done;
            done = done.push(word@);
            assert(done.drop_last() =~= old_done);
            assert(old_done + seq![word@] =~= done);
        }
        match parsed {
            Some(n) => {
                proof {
                    assert(numbers@.push(n).map_values(|n: u64| n as nat) =~= numbers@.map_values(|n: u64| n as nat) + seq![n as nat]);
                }
                numbers.push(n);
            },
            None => {
                assert(numbers_of(done, max as nat) =~= numbers_of(done.drop_last(), max as nat));
            },
        }
    } else {
        assert(done + Seq::<Seq<char>>::empty() =~= done);
    }
    numbers
}

} // verus!
