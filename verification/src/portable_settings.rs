//! Portable key/value settings: defaults, overridden by what the settings
//! file holds, read as unsigned integers, booleans or text. Numbers are
//! kept as the text the file writes them with.
use vstd::prelude::*;
use crate::text::{str_equal, chars_of, push_decimal, decimal, is_digit, digits_value};

verus! {

/// A setting's value as the file stores it.
#[derive(Debug, Clone, PartialEq)]
pub enum SettingValue {
    /// A number, as written in the file (`4`, `-1`, `0.15`).
    Number(String),
    Boolean(bool),
    Text(String),
    /// Anything else (null, lists, objects).
    Other,
}

pub enum ValueView {
    Number(Seq<char>),
    Boolean(bool),
    Text(Seq<char>),
    Other,
}

impl View for SettingValue {
    type V = ValueView;

    open spec fn view(&self) -> ValueView {
        match self {
            SettingValue::Number(text) => ValueView::Number(text@),
            SettingValue::Boolean(b) => ValueView::Boolean(*b),
            SettingValue::Text(text) => ValueView::Text(text@),
            SettingValue::Other => ValueView::Other,
        }
    }
}

#[derive(Debug, Clone)]
pub struct PortableSettings {
    entries: Vec<(String, SettingValue)>,
}

impl View for PortableSettings {
    type V = Seq<(Seq<char>, ValueView)>;

    closed spec fn view(&self) -> Seq<(Seq<char>, ValueView)> {
        self.entries@.map_values(|entry: (String, SettingValue)| (entry.0@, entry.1@))
    }
}

/// The value of the first entry named `key`.
pub open spec fn lookup(entries: Seq<(Seq<char>, ValueView)>, key: Seq<char>) -> Option<ValueView>
    decreases entries.len(),
{
    if entries.len() == 0 {
        None
    } else if entries[0].0 == key {
        Some(entries[0].1)
    } else {
        lookup(entries.drop_first(), key)
    }
}

/// The entries with `key` set to `value`: the first entry of that name
/// replaced, or a new entry at the end.
pub open spec fn with_value(entries: Seq<(Seq<char>, ValueView)>, key: Seq<char>, value: ValueView) -> Seq<(Seq<char>, ValueView)>
    decreases entries.len(),
{
    if entries.len() == 0 {
        seq![(key, value)]
    } else if entries[0].0 == key {
        entries.update(0, (key, value))
    } else {
        seq![entries[0]] + with_value(entries.drop_first(), key, value)
    }
}

/// The unsigned integer a number's text denotes, when it is one that fits
/// 64 bits (only digits).
pub open spec fn unsigned_value(text: Seq<char>) -> Option<nat> {
    if text.len() > 0 && (forall|i: int| 0 <= i < text.len() ==> is_digit(#[trigger] text[i])) && digits_value(text) <= u64::MAX {
        Some(digits_value(text))
    } else {
        None
    }
}

/// A setting read as an unsigned integer: the number taken to 32 bits, or 0.
pub open spec fn uint_of(value: Option<ValueView>) -> u32 {
    match value {
        Some(ValueView::Number(text)) => match unsigned_value(text) {
            Some(n) => (n % 0x1_0000_0000) as u32,
            None => 0,
        },
        _ => 0,
    }
}

pub open spec fn boolean_of(value: Option<ValueView>) -> bool {
    match value {
        Some(ValueView::Boolean(b)) => b,
        _ => false,
    }
}

pub open spec fn string_of(value: Option<ValueView>) -> Seq<char> {
    match value {
        Some(ValueView::Text(text)) => text,
        _ => Seq::empty(),
    }
}

pub open spec fn default_entries() -> Seq<(Seq<char>, ValueView)> {
    seq![
        ("window-width"@, ValueView::Number("-1"@)),
        ("window-height"@, ValueView::Number("-1"@)),
        ("is-maximized"@, ValueView::Boolean(false)),
        ("beats-per-bar"@, ValueView::Number("4"@)),
        ("beats-per-minute"@, ValueView::Number("100"@)),
        ("active-theme"@, ValueView::Text("Monokai"@)),
        ("tempo-ramp-enabled"@, ValueView::Boolean(false)),
        ("tempo-ramp-increment"@, ValueView::Number("5"@)),
        ("tempo-ramp-bars"@, ValueView::Number("4"@)),
        ("tempo-ramp-target"@, ValueView::Number("260"@)),
        ("background-image-path"@, ValueView::Text(""@)),
        ("background-opacity"@, ValueView::Number("0.15"@)),
        ("background-style"@, ValueView::Text("cover"@)),
    ]
}

fn entry(key: &str, value: SettingValue) -> (e: (String, SettingValue))
    ensures
        e.0@ == key@,
        e.1 == value,
{
    (key.to_owned(), value)
}

fn number(text: &str) -> (value: SettingValue)
    ensures
        value@ == ValueView::Number(text@),
{
    SettingValue::Number(text.to_owned())
}

fn text_value(text: &str) -> (value: SettingValue)
    ensures
        value@ == ValueView::Text(text@),
{
    SettingValue::Text(text.to_owned())
}

/// The built-in defaults.
pub fn defaults() -> (entries: Vec<(String, SettingValue)>)
    ensures
        entries@.map_values(|entry: (String, SettingValue)| (entry.0@, entry.1@)) == default_entries(),
{
    let mut entries: Vec<(String, SettingValue)> = Vec::new();
    entries.push(entry("window-width", number("-1")));
    entries.push(entry("window-height", number("-1")));
    entries.push(entry("is-maximized", SettingValue::Boolean(false)));
    entries.push(entry("beats-per-bar", number("4")));
    entries.push(entry("beats-per-minute", number("100")));
    entries.push(entry("active-theme", text_value("Monokai")));
    entries.push(entry("tempo-ramp-enabled", SettingValue::Boolean(false)));
    entries.push(entry("tempo-ramp-increment", number("5")));
    entries.push(entry("tempo-ramp-bars", number("4")));
    entries.push(entry("tempo-ramp-target", number("260")));
    entries.push(entry("background-image-path", text_value("")));
    entries.push(entry("background-opacity", number("0.15")));
    entries.push(entry("background-style", text_value("cover")));
    assert(entries@.map_values(|entry: (String, SettingValue)| (entry.0@, entry.1@)) =~= default_entries());
    entries
}

/// The unsigned integer a number's text denotes, if it is one that fits 64 bits.
pub fn parse_unsigned(text: &str) -> (value: Option<u64>)
    ensures
        match unsigned_value(text@) {
            Some(n) => value == Some(n as u64),
            None => value is None,
        },
{
    let chars = chars_of(text);
    if chars.len() == 0 {
        return None;
    }
    let mut value: u64 = 0;
    let mut i: usize = 0;
    while i < chars.len()
        invariant
            chars@ == text@,
            i <= chars@.len(),
            forall|j: int| 0 <= j < i ==> is_digit(#[trigger] chars@[j]),
            value == digits_value(chars@.take(i as int)),
        decreases chars@.len() - i,
    {
        let c = chars[i];
        assert(chars@.take(i + 1).drop_last() =~= chars@.take(i as int));
        if !('0' <= c && c <= '9') {
            assert(!is_digit(text@[i as int]));
            return None;
        }
        let digit = (c as u32 - '0' as u32) as u64;
        if value > (u64::MAX - digit) / 10 {
            proof {
                lemma_digits_grow(chars@, i as int + 1);
            }
            return None;
        }
        value = value * 10 + digit;
        i += 1;
    }
    assert(chars@.take(i as int) =~= chars@);
    Some(value)
}

/// A longer run of digits is worth at least as much as its prefix.
proof fn lemma_digits_grow(text: Seq<char>, n: int)
    requires
        0 <= n <= text.len(),
        forall|j: int| 0 <= j < text.len() ==> is_digit(#[trigger] text[j]) || j >= n,
    ensures
        forall|m: int| n <= m <= text.len() && (forall|j: int| 0 <= j < m ==> is_digit(#[trigger] text[j])) ==> digits_value(text.take(m)) >= digits_value(text.take(n)),
    decreases text.len() - n,
{
    assert forall|m: int| n <= m <= text.len() && (forall|j: int| 0 <= j < m ==> is_digit(#[trigger] text[j])) implies digits_value(text.take(m)) >= digits_value(text.take(n)) by {
        lemma_digits_monotone(text, n, m);
    }
}

proof fn lemma_digits_monotone(text: Seq<char>, n: int, m: int)
    requires
        0 <= n <= m <= text.len(),
        forall|j: int| 0 <= j < m ==> is_digit(#[trigger] text[j]),
    ensures
        digits_value(text.take(m)) >= digits_value(text.take(n)),
    decreases m - n,
{
    if m > n {
        lemma_digits_monotone(text, n, m - 1);
        assert(text.take(m).drop_last() =~= text.take(m - 1));
        assert(digits_value(text.take(m)) == digits_value(text.take(m - 1)) * 10 + (text[m - 1] as nat - '0' as nat) as nat);
        assert(digits_value(text.take(m - 1)) * 10 >= digits_value(text.take(m - 1))) by (nonlinear_arith);
    }
}

/// The entries of the JSON object a settings file's text holds, keys with
/// their values in the map's order; `None` where the text is not one JSON
/// object.
pub uninterp spec fn settings_json(text: Seq<char>) -> Option<Seq<(Seq<char>, ValueView)>>;

/// Reads a settings file's text with `serde_json::from_str` into a
/// `serde_json::Map<String, Value>` and hands out its entries in the map's
/// order, each value as the file wrote it: a number as serde_json prints it,
/// a boolean, a string, or `Other` for null, lists and objects. The contract
/// claims that the outcome depends on the text alone.
#[verifier::external_body]
fn parse_settings_json(text: &str) -> (entries: Option<Vec<(String, SettingValue)>>)
    ensures
        match entries {
            Some(parsed) => settings_json(text@) == Some(parsed@.map_values(|entry: (String, SettingValue)| (entry.0@, entry.1@))),
            None => settings_json(text@) is None,
        },
{
    match serde_json::from_str::<serde_json::Map<String, serde_json::Value>>(text) {
        Ok(map) => Some(map.into_iter().map(|(key, value)| (key, match value {
            serde_json::Value::Number(number) => SettingValue::Number(number.to_string()),
            serde_json::Value::Bool(flag) => SettingValue::Boolean(flag),
            serde_json::Value::String(string) => SettingValue::Text(string),
            _ => SettingValue::Other,
        })).collect()),
        Err(_) => None,
    }
}

/// `entries` with each of `parsed` set over them in turn.
pub open spec fn overlay(entries: Seq<(Seq<char>, ValueView)>, parsed: Seq<(Seq<char>, ValueView)>) -> Seq<(Seq<char>, ValueView)>
    decreases parsed.len(),
{
    if parsed.len() == 0 {
        entries
    } else {
        with_value(overlay(entries, parsed.drop_last()), parsed.last().0, parsed.last().1)
    }
}

/// The settings a settings file's text gives: the defaults with what the
/// file holds laid over them; just the defaults where the text is not one
/// JSON object.
pub open spec fn loaded_entries(text: Seq<char>) -> Seq<(Seq<char>, ValueView)> {
    match settings_json(text) {
        Some(parsed) => overlay(default_entries(), parsed),
        None => default_entries(),
    }
}

fn copy_value(value: &SettingValue) -> (copy: SettingValue)
    ensures
        copy@ == value@,
{
    match value {
        SettingValue::Number(text) => SettingValue::Number(text.clone()),
        SettingValue::Boolean(b) => SettingValue::Boolean(*b),
        SettingValue::Text(text) => SettingValue::Text(text.clone()),
        SettingValue::Other => SettingValue::Other,
    }
}

impl PortableSettings {
    /// The settings a settings file's text gives: the defaults, with each
    /// entry of the JSON object it holds set over them; just the defaults
    /// where the text is not one JSON object.
    pub fn load_from_text(text: &str) -> (settings: PortableSettings)
        ensures
            settings@ == loaded_entries(text@),
    {
        let mut settings = PortableSettings::new("");
        match parse_settings_json(text) {
            Some(parsed) => {
                let ghost all = parsed@.map_values(|entry: (String, SettingValue)| (entry.0@, entry.1@));
                let mut i: usize = 0;
                while i < parsed.len()
                    invariant
                        i <= parsed@.len(),
                        all == parsed@.map_values(|entry: (String, SettingValue)| (entry.0@, entry.1@)),
                        settings@ == overlay(default_entries(), all.take(i as int)),
                    decreases parsed@.len() - i,
                {
                    let value = copy_value(&parsed[i].1);
                    settings.set(parsed[i].0.as_str(), value);
                    proof {
                        assert(all.take(i + 1).drop_last() =~= all.take(i as int));
                        assert(all.take(i + 1).last() == all[i as int]);
                    }
                    i += 1;
                }
                assert(all.take(i as int) =~= all);
            },
            None => {},
        }
        settings
    }

    /// The settings with their defaults.
    pub fn new(_app_id: &str) -> (settings: PortableSettings)
        ensures
            settings@ == default_entries(),
    {
        PortableSettings { entries: defaults() }
    }

    /// The entries, in the order the store writes them.
    pub fn entries(&self) -> (entries: &Vec<(String, SettingValue)>)
        ensures
            entries@.map_values(|entry: (String, SettingValue)| (entry.0@, entry.1@)) == self@,
    {
        &self.entries
    }

    fn find(&self, key: &str) -> (index: Option<usize>)
        ensures
            match index {
                Some(i) => i < self.entries@.len() && self@[i as int].0 == key@
                    && lookup(self@, key@) == Some(self@[i as int].1)
                    && with_value(self@, key@, ValueView::Other) == self@.update(i as int, (key@, ValueView::Other))
                    && forall|v: ValueView| #[trigger] with_value(self@, key@, v) == self@.update(i as int, (key@, v)),
                None => lookup(self@, key@) is None
                    && forall|v: ValueView| #[trigger] with_value(self@, key@, v) == self@.push((key@, v)),
            },
    {
        let ghost all = self@;
        let mut i: usize = 0;
        proof {
            assert(all.skip(0) =~= all);
        }
        while i < self.entries.len()
            invariant
                all == self@,
                all.len() == self.entries@.len(),
                i <= all.len(),
                forall|j: int| 0 <= j < i ==> all[j].0 != key@,
                lookup(all, key@) == lookup(all.skip(i as int), key@),
            decreases all.len() - i,
        {
            assert(all.skip(i as int).drop_first() =~= all.skip(i + 1));
            if str_equal(self.entries[i].0.as_str(), key) {
                proof {
                    assert forall|v: ValueView| #[trigger] with_value(all, key@, v) == all.update(i as int, (key@, v)) by {
                        lemma_with_value_at(all, key@, v, i as int);
                    }
                }
                return Some(i);
            }
            i += 1;
        }
        proof {
            assert forall|v: ValueView| #[trigger] with_value(all, key@, v) == all.push((key@, v)) by {
                lemma_with_value_absent(all, key@, v);
            }
        }
        None
    }

    fn get(&self, key: &str) -> (value: Option<&SettingValue>)
        ensures
            match value {
                Some(v) => lookup(self@, key@) == Some(v@),
                None => lookup(self@, key@) is None,
            },
    {
        match self.find(key) {
            Some(i) => Some(&self.entries[i].1),
            None => None,
        }
    }

    /// The setting `key` as an unsigned integer (taken to 32 bits); 0 when
    /// it is missing or not such a number.
    pub fn uint(&self, key: &str) -> (value: u32)
        ensures
            value == uint_of(lookup(self@, key@)),
    {
        match self.get(key) {
            Some(SettingValue::Number(text)) => match parse_unsigned(text.as_str()) {
                Some(n) => (n % 0x1_0000_0000) as u32,
                None => 0,
            },
            _ => 0,
        }
    }

    /// The setting `key` as a boolean; false when missing or not a boolean.
    pub fn boolean(&self, key: &str) -> (value: bool)
        ensures
            value == boolean_of(lookup(self@, key@)),
    {
        match self.get(key) {
            Some(SettingValue::Boolean(b)) => *b,
            _ => false,
        }
    }

    /// The setting `key` as text; empty when missing or not text.
    pub fn string(&self, key: &str) -> (value: String)
        ensures
            value@ == string_of(lookup(self@, key@)),
    {
        match self.get(key) {
            Some(SettingValue::Text(text)) => text.clone(),
            _ => String::new(),
        }
    }

    /// The setting `key` as it is stored, if there is one.
    pub fn value(&self, key: &str) -> (value: Option<SettingValue>)
        ensures
            match value {
                Some(v) => lookup(self@, key@) == Some(v@),
                None => lookup(self@, key@) is None,
            },
    {
        match self.get(key) {
            Some(SettingValue::Number(text)) => Some(SettingValue::Number(text.clone())),
            Some(SettingValue::Boolean(b)) => Some(SettingValue::Boolean(*b)),
            Some(SettingValue::Text(text)) => Some(SettingValue::Text(text.clone())),
            Some(SettingValue::Other) => Some(SettingValue::Other),
            None => None,
        }
    }

    /// Sets `key` to `value`.
    pub fn set(&mut self, key: &str, value: SettingValue)
        ensures
            final(self)@ == with_value(old(self)@, key@, value@),
    {
        let ghost v = value@;
        match self.find(key) {
            Some(i) => {
                let item = (key.to_owned(), value);
                self.entries.set(i, item);
                assert(self@ =~= old(self)@.update(i as int, (key@, v)));
            },
            None => {
                let item = (key.to_owned(), value);
                self.entries.push(item);
                assert(self@ =~= old(self)@.push((key@, v)));
            },
        }
    }

    /// Sets `key` to the number `value`.
    pub fn set_uint(&mut self, key: &str, value: u32)
        ensures
            final(self)@ == with_value(old(self)@, key@, ValueView::Number(decimal(value as nat))),
    {
        let mut text = String::new();
        push_decimal(&mut text, value as u64);
        assert(text@ =~= decimal(value as nat));
        self.set(key, SettingValue::Number(text));
    }

    /// Sets `key` to the boolean `value`.
    pub fn set_boolean(&mut self, key: &str, value: bool)
        ensures
            final(self)@ == with_value(old(self)@, key@, ValueView::Boolean(value)),
    {
        self.set(key, SettingValue::Boolean(value));
    }

    /// Sets `key` to the text `value`.
    pub fn set_string(&mut self, key: &str, value: &str)
        ensures
            final(self)@ == with_value(old(self)@, key@, ValueView::Text(value@)),
    {
        self.set(key, SettingValue::Text(value.to_owned()));
    }
}

proof fn lemma_with_value_at(entries: Seq<(Seq<char>, ValueView)>, key: Seq<char>, value: ValueView, i: int)
    requires
        0 <= i < entries.len(),
        entries[i].0 == key,
        forall|j: int| 0 <= j < i ==> entries[j].0 != key,
    ensures
        with_value(entries, key, value) == entries.update(i, (key, value)),
    decreases i,
{
    if i > 0 {
        let rest = entries.drop_first();
        lemma_with_value_at(rest, key, value, i - 1);
        assert(with_value(entries, key, value) =~= entries.update(i, (key, value)));
    }
}

proof fn lemma_with_value_absent(entries: Seq<(Seq<char>, ValueView)>, key: Seq<char>, value: ValueView)
    requires
        forall|j: int| 0 <= j < entries.len() ==> entries[j].0 != key,
    ensures
        with_value(entries, key, value) == entries.push((key, value)),
    decreases entries.len(),
{
    if entries.len() > 0 {
        lemma_with_value_absent(entries.drop_first(), key, value);
        assert(with_value(entries, key, value) =~= entries.push((key, value)));
    }
}

/// What is set is read back: a set text, boolean or number is what the
/// getters give for that key.
pub proof fn lemma_read_back(entries: Seq<(Seq<char>, ValueView)>, key: Seq<char>, value: ValueView)
    ensures
        lookup(with_value(entries, key, value), key) == Some(value),
    decreases entries.len(),
{
    if entries.len() > 0 && entries[0].0 != key {
        lemma_read_back(entries.drop_first(), key, value);
        assert(with_value(entries, key, value).drop_first() =~= with_value(entries.drop_first(), key, value));
    }
}

/// Setting one key leaves every other key as it was.
pub proof fn lemma_other_keys_unchanged(entries: Seq<(Seq<char>, ValueView)>, key: Seq<char>, value: ValueView, other: Seq<char>)
    requires
        other != key,
    ensures
        lookup(with_value(entries, key, value), other) == lookup(entries, other),
    decreases entries.len(),
{
    let changed = with_value(entries, key, value);
    if entries.len() > 0 && entries[0].0 != key {
        lemma_other_keys_unchanged(entries.drop_first(), key, value, other);
        assert(changed.drop_first() =~= with_value(entries.drop_first(), key, value));
        assert(changed[0] == entries[0]);
    } else if entries.len() > 0 {
        assert(changed.drop_first() =~= entries.drop_first());
        assert(changed[0].0 == key);
        assert(lookup(changed, other) == lookup(changed.drop_first(), other));
    } else {
        assert(changed.drop_first() =~= Seq::<(Seq<char>, ValueView)>::empty());
        assert(lookup(changed.drop_first(), other) is None);
        assert(lookup(changed, other) == lookup(changed.drop_first(), other));
    }
}

/// A stored unsigned number reads back as itself.
pub proof fn lemma_uint_read_back(entries: Seq<(Seq<char>, ValueView)>, key: Seq<char>, value: u32)
    ensures
        uint_of(lookup(with_value(entries, key, ValueView::Number(decimal(value as nat))), key)) == value,
{
    lemma_read_back(entries, key, ValueView::Number(decimal(value as nat)));
    lemma_decimal_unsigned(value as nat);
}

proof fn lemma_decimal_unsigned(n: nat)
    requires
        n <= u32::MAX,
    ensures
        unsigned_value(decimal(n)) == Some(n),
{
    lemma_decimal_digits(n);
}

proof fn lemma_digit_char_value(d: nat)
    requires
        d < 10,
    ensures
        is_digit(crate::text::digit_char(d)),
        crate::text::digit_char(d) as nat - '0' as nat == d,
{
    if d == 0 {
        assert(crate::text::digit_char(d) == '0');
    } else if d == 1 {
        assert(crate::text::digit_char(d) == '1');
    } else if d == 2 {
        assert(crate::text::digit_char(d) == '2');
    } else if d == 3 {
        assert(crate::text::digit_char(d) == '3');
    } else if d == 4 {
        assert(crate::text::digit_char(d) == '4');
    } else if d == 5 {
        assert(crate::text::digit_char(d) == '5');
    } else if d == 6 {
        assert(crate::text::digit_char(d) == '6');
    } else if d == 7 {
        assert(crate::text::digit_char(d) == '7');
    } else if d == 8 {
        assert(crate::text::digit_char(d) == '8');
    } else {
        assert(crate::text::digit_char(d) == '9');
    }
}

proof fn lemma_decimal_digits(n: nat)
    ensures
        decimal(n).len() > 0,
        forall|i: int| 0 <= i < decimal(n).len() ==> is_digit(#[trigger] decimal(n)[i]),
        digits_value(decimal(n)) == n,
    decreases n,
{
    lemma_digit_char_value(n % 10);
    let d = decimal(n);
    if n >= 10 {
        lemma_decimal_digits(n / 10);
        assert(d.drop_last() =~= decimal(n / 10));
        assert(d.last() == crate::text::digit_char(n % 10));
        assert(n == (n / 10) * 10 + n % 10);
        assert(digits_value(d) == digits_value(d.drop_last()) * 10 + (d.last() as nat - '0' as nat) as nat);
    } else {
        assert(d.drop_last() =~= Seq::<char>::empty());
        assert(digits_value(d) == digits_value(d.drop_last()) * 10 + (d.last() as nat - '0' as nat) as nat);
    }
}

} // verus!
