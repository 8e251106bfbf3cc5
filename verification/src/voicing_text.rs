//! The text form in which the scales page hands a chord voicing to the
//! fretboard: `string,fret` pairs joined by `;`, and the tone labels joined
//! by `,`; and the fretboard's reading of both.
use vstd::prelude::*;
use crate::chord_builder::VoicingNote;
use crate::text::{decimal, digits_value, is_digit, digit_char, push_decimal, push_text, chars_of};
use crate::xml_text::{unsigned_of, parse_number, digits_number};

verus! {

/// The pieces of `s` between the separators, as `str::split` gives them:
/// always at least one, empty ones included.
pub open spec fn split_pieces(s: Seq<char>, sep: char) -> Seq<Seq<char>>
    decreases s.len(),
{
    if s.len() == 0 {
        seq![Seq::empty()]
    } else {
        let rest = split_pieces(s.drop_last(), sep);
        if s.last() == sep {
            rest.push(Seq::empty())
        } else {
            rest.update(rest.len() - 1, rest.last().push(s.last()))
        }
    }
}

/// The pieces joined with the separator between them.
pub open spec fn join_pieces(pieces: Seq<Seq<char>>, sep: char) -> Seq<char>
    decreases pieces.len(),
{
    if pieces.len() == 0 {
        Seq::empty()
    } else if pieces.len() == 1 {
        pieces[0]
    } else {
        join_pieces(pieces.drop_last(), sep) + seq![sep] + pieces.last()
    }
}

/// One note of a voicing: its string and fret.
pub open spec fn note_entry(note: VoicingNote) -> Seq<char> {
    decimal(note.string_index as nat) + seq![','] + decimal(note.fret as nat)
}

pub open spec fn spec_voicing_text(voicing: Seq<VoicingNote>) -> Seq<char> {
    join_pieces(voicing.map_values(|note: VoicingNote| note_entry(note)), ';')
}

pub open spec fn spec_labels_text(voicing: Seq<VoicingNote>) -> Seq<char> {
    join_pieces(voicing.map_values(|note: VoicingNote| note.label@), ',')
}

/// The (string, fret) pair a piece names: its first two `,`-separated
/// parts read as numbers, if there are two and both read.
pub open spec fn pair_of(piece: Seq<char>) -> Option<(usize, usize)> {
    let parts = split_pieces(piece, ',');
    if parts.len() < 2 {
        None
    } else {
        match (unsigned_of(parts[0], usize::MAX as nat), unsigned_of(parts[1], usize::MAX as nat)) {
            (Some(s), Some(f)) => Some((s as usize, f as usize)),
            _ => None,
        }
    }
}

/// The pairs the pieces name, skipping pieces that name none.
pub open spec fn pairs_of(pieces: Seq<Seq<char>>) -> Seq<(usize, usize)>
    decreases pieces.len(),
{
    if pieces.len() == 0 {
        Seq::empty()
    } else {
        let rest = pairs_of(pieces.drop_last());
        match pair_of(pieces.last()) {
            Some(pair) => rest.push(pair),
            None => rest,
        }
    }
}

pub open spec fn spec_parse_voicing(s: Seq<char>) -> Seq<(usize, usize)> {
    if s.len() == 0 { Seq::empty() } else { pairs_of(split_pieces(s, ';')) }
}

pub open spec fn spec_parse_labels(s: Seq<char>) -> Seq<Seq<char>> {
    if s.len() == 0 { Seq::empty() } else { split_pieces(s, ',') }
}

/// The voicing as `string,fret` pairs joined by `;`.
pub fn voicing_text(voicing: &Vec<VoicingNote>) -> (text: String)
    ensures
        text@ == spec_voicing_text(voicing@),
{
    let ghost entries = voicing@.map_values(|note: VoicingNote| note_entry(note));
    let mut text = String::new();
    let mut i: usize = 0;
    while i < voicing.len()
        invariant
            i <= voicing@.len(),
            entries == voicing@.map_values(|note: VoicingNote| note_entry(note)),
            text@ == join_pieces(entries.take(i as int), ';'),
        decreases voicing@.len() - i,
    {
        assert(entries.take(i + 1).drop_last() =~= entries.take(i as int));
        if i > 0 {
            push_text(&mut text, ";");
        }
        push_decimal(&mut text, voicing[i].string_index as u64);
        push_text(&mut text, ",");
        push_decimal(&mut text, voicing[i].fret as u64);
        proof {
            reveal_strlit(";");
            reveal_strlit(",");
            assert(entries.take(i + 1).last() == note_entry(voicing@[i as int]));
        }
        assert(text@ =~= join_pieces(entries.take(i + 1), ';'));
        i += 1;
    }
    assert(entries.take(i as int) =~= entries);
    text
}

/// The voicing's tone labels joined by `,`.
pub fn labels_text(voicing: &Vec<VoicingNote>) -> (text: String)
    ensures
        text@ == spec_labels_text(voicing@),
{
    let ghost labels = voicing@.map_values(|note: VoicingNote| note.label@);
    let mut text = String::new();
    let mut i: usize = 0;
    while i < voicing.len()
        invariant
            i <= voicing@.len(),
            labels == voicing@.map_values(|note: VoicingNote| note.label@),
            text@ == join_pieces(labels.take(i as int), ','),
        decreases voicing@.len() - i,
    {
        assert(labels.take(i + 1).drop_last() =~= labels.take(i as int));
        if i > 0 {
            push_text(&mut text, ",");
        }
        push_text(&mut text, voicing[i].label.as_str());
        proof {
            reveal_strlit(",");
            assert(labels.take(i + 1).last() == voicing@[i as int].label@);
        }
        assert(text@ =~= join_pieces(labels.take(i + 1), ','));
        i += 1;
    }
    assert(labels.take(i as int) =~= labels);
    text
}

proof fn lemma_split_nonempty(s: Seq<char>, sep: char)
    ensures
        split_pieces(s, sep).len() >= 1,
    decreases s.len(),
{
    if s.len() > 0 {
        lemma_split_nonempty(s.drop_last(), sep);
    }
}

/// Splits `chars` at `sep`.
fn split_chars(chars: &Vec<char>, sep: char) -> (pieces: Vec<Vec<char>>)
    ensures
        pieces@.len() == split_pieces(chars@, sep).len(),
        forall|k: int| 0 <= k < pieces@.len() ==> (#[trigger] pieces@[k])@ == split_pieces(chars@, sep)[k],
{
    let ghost s = chars@;
    let mut pieces: Vec<Vec<char>> = Vec::new();
    let mut current: Vec<char> = Vec::new();
    let mut i: usize = 0;
    while i < chars.len()
        invariant
            s == chars@,
            i <= s.len(),
            pieces@.len() + 1 == split_pieces(s.take(i as int), sep).len(),
            forall|k: int| 0 <= k < pieces@.len() ==> (#[trigger] pieces@[k])@ == split_pieces(s.take(i as int), sep)[k],
            current@ == split_pieces(s.take(i as int), sep).last(),
        decreases s.len() - i,
    {
        assert(s.take(i + 1).drop_last() =~= s.take(i as int));
        proof {
            lemma_split_nonempty(s.take(i as int), sep);
        }
        let c = chars[i];
        if c == sep {
            let done = current;
            pieces.push(done);
            current = Vec::new();
        } else {
            current.push(c);
        }
        i += 1;
    }
    assert(s.take(i as int) =~= s);
    pieces.push(current);
    pieces
}

/// The (string, fret) pairs a voicing text names.
pub fn parse_voicing(text: &str) -> (pairs: Vec<(usize, usize)>)
    ensures
        pairs@ == spec_parse_voicing(text@),
{
    let chars = chars_of(text);
    if chars.len() == 0 {
        return Vec::new();
    }
    let pieces = split_chars(&chars, ';');
    let ghost views = split_pieces(chars@, ';');
    let mut pairs: Vec<(usize, usize)> = Vec::new();
    let mut i: usize = 0;
    while i < pieces.len()
        invariant
            i <= pieces@.len(),
            pieces@.len() == views.len(),
            forall|k: int| 0 <= k < pieces@.len() ==> (#[trigger] pieces@[k])@ == views[k],
            pairs@ == pairs_of(views.take(i as int)),
        decreases pieces@.len() - i,
    {
        assert(views.take(i + 1).drop_last() =~= views.take(i as int));
        assert(views.take(i + 1).last() == pieces@[i as int]@);
        match piece_pair(&pieces[i]) {
            Some(pair) => pairs.push(pair),
            None => {},
        }
        i += 1;
    }
    assert(views.take(i as int) =~= views);
    pairs
}

fn piece_pair(piece: &Vec<char>) -> (pair: Option<(usize, usize)>)
    ensures
        pair == pair_of(piece@),
{
    let parts = split_chars(piece, ',');
    if parts.len() < 2 {
        return None;
    }
    let string_index = parse_number(&parts[0], usize::MAX as u64);
    let fret = parse_number(&parts[1], usize::MAX as u64);
    match (string_index, fret) {
        (Some(s), Some(f)) => Some((s as usize, f as usize)),
        _ => None,
    }
}

/// The tone labels a labels text names.
pub fn parse_labels(text: &str) -> (labels: Vec<String>)
    ensures
        labels@.len() == spec_parse_labels(text@).len(),
        forall|k: int| 0 <= k < labels@.len() ==> (#[trigger] labels@[k])@ == spec_parse_labels(text@)[k],
{
    let chars = chars_of(text);
    let mut labels: Vec<String> = Vec::new();
    if chars.len() == 0 {
        return labels;
    }
    let pieces = split_chars(&chars, ',');
    let mut i: usize = 0;
    while i < pieces.len()
        invariant
            i <= pieces@.len(),
            labels@.len() == i,
            pieces@.len() == split_pieces(chars@, ',').len(),
            forall|k: int| 0 <= k < pieces@.len() ==> (#[trigger] pieces@[k])@ == split_pieces(chars@, ',')[k],
            forall|k: int| 0 <= k < i ==> (#[trigger] labels@[k])@ == split_pieces(chars@, ',')[k],
        decreases pieces@.len() - i,
    {
        let label = crate::text::string_from_range(&pieces[i], 0, pieces[i].len());
        assert(pieces@[i as int]@.subrange(0, pieces@[i as int]@.len() as int) =~= pieces@[i as int]@);
        labels.push(label);
        i += 1;
    }
    labels
}

// ---------------------------------------------------------------------
// Reading back what was written

proof fn lemma_digit_char(d: nat)
    requires
        d < 10,
    ensures
        is_digit(digit_char(d)),
        digit_char(d) as nat - '0' as nat == d,
{
}

proof fn lemma_decimal_digits(n: nat)
    ensures
        decimal(n).len() > 0,
        forall|i: int| 0 <= i < decimal(n).len() ==> is_digit(#[trigger] decimal(n)[i]),
        digits_value(decimal(n)) == n,
    decreases n,
{
    if n >= 10 {
        lemma_decimal_digits(n / 10);
        let d = decimal(n);
        assert(d.drop_last() =~= decimal(n / 10));
        lemma_digit_char(n % 10);
        assert forall|i: int| 0 <= i < d.len() implies is_digit(#[trigger] d[i]) by {
            if i < d.len() - 1 {
                assert(d[i] == decimal(n / 10)[i]);
            }
        }
        assert(d.last() == digit_char(n % 10));
        assert(digits_value(d) == digits_value(decimal(n / 10)) * 10 + (digit_char(n % 10) as nat - '0' as nat));
        assert(n / 10 * 10 + n % 10 == n);
    } else {
        lemma_digit_char(n);
        let d = seq![digit_char(n)];
        assert(d.drop_last() =~= Seq::<char>::empty());
        assert(digits_value(d.drop_last()) == 0);
        assert(d.last() == digit_char(n));
        assert(decimal(n) == d);
        assert(digits_value(d) == (digit_char(n) as nat - '0' as nat) as nat);
    }
}

proof fn lemma_unsigned_of_decimal(n: nat)
    requires
        n <= usize::MAX,
    ensures
        unsigned_of(decimal(n), usize::MAX as nat) == Some(n),
{
    lemma_decimal_digits(n);
    assert(is_digit(decimal(n)[0]));
}

/// Appending separator-free text extends the last piece.
proof fn lemma_split_extend(x: Seq<char>, b: Seq<char>, sep: char)
    requires
        forall|i: int| 0 <= i < b.len() ==> b[i] != sep,
    ensures
        split_pieces(x + b, sep) == split_pieces(x, sep).update(
            split_pieces(x, sep).len() - 1, split_pieces(x, sep).last() + b),
    decreases b.len(),
{
    lemma_split_nonempty(x, sep);
    if b.len() == 0 {
        assert(x + b =~= x);
        assert(split_pieces(x, sep).last() + b =~= split_pieces(x, sep).last());
        assert(split_pieces(x, sep).update(split_pieces(x, sep).len() - 1, split_pieces(x, sep).last())
            =~= split_pieces(x, sep));
    } else {
        let b0 = b.drop_last();
        lemma_split_extend(x, b0, sep);
        assert((x + b).drop_last() =~= x + b0);
        assert((x + b).last() == b.last());
        let r = split_pieces(x, sep);
        let r0 = split_pieces(x + b0, sep);
        assert(b.last() == b[b.len() - 1]);
        assert(b.last() != sep);
        assert(r0 == r.update(r.len() - 1, r.last() + b0));
        assert(r0.len() == r.len());
        assert(r0.last() == r.last() + b0);
        assert(split_pieces(x + b, sep) == r0.update(r0.len() - 1, r0.last().push(b.last())));
        assert(r.last() + b0 + seq![b.last()] =~= r.last() + b);
        assert(r0.last().push(b.last()) =~= r.last() + b);
        assert(split_pieces(x + b, sep) =~= r.update(r.len() - 1, r.last() + b));
    }
}

/// A separator-free text splits into itself.
proof fn lemma_split_plain(b: Seq<char>, sep: char)
    requires
        forall|i: int| 0 <= i < b.len() ==> b[i] != sep,
    ensures
        split_pieces(b, sep) == seq![b],
{
    lemma_split_extend(Seq::empty(), b, sep);
    assert(Seq::<char>::empty() + b =~= b);
    assert(seq![Seq::<char>::empty()].update(0, Seq::<char>::empty() + b) =~= seq![b]);
}

/// Joining separator-free pieces and splitting gives the pieces back.
proof fn lemma_split_join(pieces: Seq<Seq<char>>, sep: char)
    requires
        pieces.len() > 0,
        forall|k: int, i: int| 0 <= k < pieces.len() && 0 <= i < pieces[k].len() ==> pieces[k][i] != sep,
    ensures
        split_pieces(join_pieces(pieces, sep), sep) == pieces,
    decreases pieces.len(),
{
    if pieces.len() == 1 {
        lemma_split_plain(pieces[0], sep);
        assert(seq![pieces[0]] =~= pieces);
    } else {
        let front = pieces.drop_last();
        lemma_split_join(front, sep);
        let a = join_pieces(front, sep) + seq![sep];
        assert(a.drop_last() =~= join_pieces(front, sep));
        assert(split_pieces(a, sep) == front.push(Seq::empty()));
        let last = pieces.last();
        assert forall|i: int| 0 <= i < last.len() implies last[i] != sep by {
            assert(last[i] == pieces[pieces.len() - 1][i]);
        }
        lemma_split_extend(a, last, sep);
        assert(front.push(Seq::empty()).update(front.len() as int, Seq::<char>::empty() + last) =~= pieces);
    }
}

proof fn lemma_decimal_has_no(n: nat, c: char)
    requires
        !is_digit(c),
    ensures
        forall|i: int| 0 <= i < decimal(n).len() ==> decimal(n)[i] != c,
{
    lemma_decimal_digits(n);
}

/// Reading the text of a voicing gives its (string, fret) pairs back.
pub proof fn lemma_voicing_text_round_trip(voicing: Seq<VoicingNote>)
    ensures
        spec_parse_voicing(spec_voicing_text(voicing)) == voicing.map_values(|note: VoicingNote| (note.string_index, note.fret)),
    decreases voicing.len(),
{
    let entries = voicing.map_values(|note: VoicingNote| note_entry(note));
    if voicing.len() == 0 {
        assert(spec_voicing_text(voicing) =~= Seq::<char>::empty());
        assert(voicing.map_values(|note: VoicingNote| (note.string_index, note.fret)) =~= Seq::<(usize, usize)>::empty());
    } else {
        assert forall|k: int, i: int| 0 <= k < entries.len() && 0 <= i < entries[k].len() implies entries[k][i] != ';' by {
            let note = voicing[k];
            lemma_decimal_has_no(note.string_index as nat, ';');
            lemma_decimal_has_no(note.fret as nat, ';');
            let left = decimal(note.string_index as nat);
            if i >= left.len() + 1 {
                assert(entries[k][i] == decimal(note.fret as nat)[i - left.len() - 1]);
            }
        }
        lemma_split_join(entries, ';');
        assert(spec_voicing_text(voicing).len() > 0) by {
            lemma_join_nonempty(entries, ';');
        }
        lemma_pairs_of_entries(voicing);
    }
}

proof fn lemma_join_nonempty(pieces: Seq<Seq<char>>, sep: char)
    requires
        pieces.len() > 0,
        pieces[0].len() > 0,
    ensures
        join_pieces(pieces, sep).len() > 0,
    decreases pieces.len(),
{
    if pieces.len() > 1 {
        lemma_join_nonempty(pieces.drop_last(), sep);
    }
}

proof fn lemma_pair_of_entry(note: VoicingNote)
    ensures
        pair_of(note_entry(note)) == Some((note.string_index, note.fret)),
{
    let left = decimal(note.string_index as nat);
    let right = decimal(note.fret as nat);
    lemma_decimal_has_no(note.string_index as nat, ',');
    lemma_decimal_has_no(note.fret as nat, ',');
    lemma_split_join(seq![left, right], ',');
    assert(join_pieces(seq![left, right], ',') =~= note_entry(note)) by {
        let both = seq![left, right];
        assert(both.drop_last() =~= seq![left]);
        assert(join_pieces(seq![left], ',') == left);
        assert(both.last() == right);
        assert(join_pieces(both, ',') == join_pieces(both.drop_last(), ',') + seq![','] + both.last());
    }
    lemma_unsigned_of_decimal(note.string_index as nat);
    lemma_unsigned_of_decimal(note.fret as nat);
}

proof fn lemma_pairs_of_entries(voicing: Seq<VoicingNote>)
    ensures
        pairs_of(voicing.map_values(|note: VoicingNote| note_entry(note)))
            == voicing.map_values(|note: VoicingNote| (note.string_index, note.fret)),
    decreases voicing.len(),
{
    if voicing.len() > 0 {
        let front = voicing.drop_last();
        lemma_pairs_of_entries(front);
        assert(voicing.map_values(|note: VoicingNote| note_entry(note)).drop_last()
            =~= front.map_values(|note: VoicingNote| note_entry(note)));
        lemma_pair_of_entry(voicing.last());
        assert(voicing.map_values(|note: VoicingNote| (note.string_index, note.fret))
            =~= front.map_values(|note: VoicingNote| (note.string_index, note.fret)).push((voicing.last().string_index, voicing.last().fret)));
    } else {
        assert(voicing.map_values(|note: VoicingNote| (note.string_index, note.fret)) =~= Seq::<(usize, usize)>::empty());
    }
}

/// Reading the labels text of a voicing gives its labels back, unless the
/// text is empty while the voicing is not (one note with an empty label)
/// or a label holds a comma.
pub proof fn lemma_labels_text_round_trip(voicing: Seq<VoicingNote>)
    requires
        forall|k: int, i: int| 0 <= k < voicing.len() && 0 <= i < voicing[k].label@.len() ==> voicing[k].label@[i] != ',',
        !(voicing.len() == 1 && voicing[0].label@.len() == 0),
    ensures
        spec_parse_labels(spec_labels_text(voicing)) == voicing.map_values(|note: VoicingNote| note.label@),
{
    let labels = voicing.map_values(|note: VoicingNote| note.label@);
    if voicing.len() == 0 {
        assert(labels =~= Seq::<Seq<char>>::empty());
    } else {
        assert forall|k: int, i: int| 0 <= k < labels.len() && 0 <= i < labels[k].len() implies labels[k][i] != ',' by {
            assert(labels[k] == voicing[k].label@);
        }
        lemma_split_join(labels, ',');
        if voicing.len() > 1 {
            assert(join_pieces(labels, ',').len() > 0) by {
                assert(join_pieces(labels, ',') == join_pieces(labels.drop_last(), ',') + seq![','] + labels.last());
            }
        } else {
            assert(join_pieces(labels, ',') == labels[0]);
        }
    }
}

} // verus!
