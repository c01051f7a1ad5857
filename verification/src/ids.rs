//! The wire format of identifiers. A series is `<kind>|<sequence>`, an item
//! of it is `<kind>|<sequence>:<number>`, all numbers in decimal.

use vstd::prelude::*;
use vstd::string::*;
use crate::text::{
    decimal_digits, decimal_string, free_of, is_digit, lemma_decimal_digits_are_digits,
    lemma_decimal_injective, lemma_prefix_len_bounds, lemma_prefix_len_is, lemma_text_before_joined, prefix_before,
    prefix_len, push_char, text_before,
};

verus! {

/// Between the kind and the sequence of a series identifier.
pub const KIND_DELIMETER: char = '|';

/// Between the series and the number of an item identifier.
pub const TOKEN_DELIMETER: char = ':';

/// What a series issues.
#[derive(Clone, Copy, Debug, PartialEq, Eq, Structural)]
pub enum SeriesKind {
    /// An event ticket, kind `1`.
    Event,
    /// The companion that is made together with an event, kind `2`.
    Companion,
    /// A companion that is added to an event later, kind `3`.
    Object,
}

/// The character that stands for a kind.
pub open spec fn kind_char(kind: SeriesKind) -> char {
    match kind {
        SeriesKind::Event => '1',
        SeriesKind::Companion => '2',
        SeriesKind::Object => '3',
    }
}

/// The identifier of the series of `kind` with the given sequence number.
pub open spec fn series_id_text(kind: SeriesKind, sequence: nat) -> Seq<char> {
    seq![kind_char(kind)].push('|') + decimal_digits(sequence)
}

/// The identifier of item `number` of the series `series_id`.
pub open spec fn item_id_text(series_id: Seq<char>, number: nat) -> Seq<char> {
    series_id.push(':') + decimal_digits(number)
}

/// The part of an identifier that names its kind: what stands before `|`.
pub open spec fn kind_tag(id: Seq<char>) -> Seq<char> {
    text_before(id, '|')
}

/// The identifier names an event: its kind tag is `1`.
pub open spec fn is_event_id(id: Seq<char>) -> bool {
    kind_tag(id) == seq!['1']
}

/// The identifier names a companion of either sort: its kind tag is `2` or `3`.
pub open spec fn is_object_id(id: Seq<char>) -> bool {
    kind_tag(id) == seq!['2'] || kind_tag(id) == seq!['3']
}

/// The series that an item identifier names: what stands before `:`.
pub open spec fn series_of_item(item_id: Seq<char>) -> Seq<char> {
    text_before(item_id, ':')
}

/// The number that an item identifier ends with: the decimal behind `:`.
pub open spec fn number_of_item(item_id: Seq<char>) -> nat {
    crate::text::decimal_value(item_id.skip(prefix_len(item_id, ':') as int + 1))
}

/// The identifier of item `number` of a series ends with that number.
pub proof fn lemma_number_of_item(series_id: Seq<char>, number: nat)
    requires
        free_of(series_id, ':'),
    ensures
        number_of_item(item_id_text(series_id, number)) == number,
{
    let item = item_id_text(series_id, number);
    lemma_text_before_joined(series_id, ':', decimal_digits(number));
    assert forall|j: int| 0 <= j < series_id.len() implies #[trigger] item[j] != ':' by {
        assert(item[j] == series_id[j]);
    }
    assert(item[series_id.len() as int] == ':');
    lemma_prefix_len_is(item, ':', series_id.len() as int);
    assert(item.skip(series_id.len() as int + 1) =~= decimal_digits(number));
    crate::text::lemma_decimal_round_trip(number);
}

/// A series identifier holds no `:`, and its kind tag is the kind's character.
pub proof fn lemma_series_id_shape(kind: SeriesKind, sequence: nat)
    ensures
        free_of(series_id_text(kind, sequence), ':'),
        kind_tag(series_id_text(kind, sequence)) == seq![kind_char(kind)],
        is_event_id(series_id_text(kind, sequence)) <==> kind == SeriesKind::Event,
        is_object_id(series_id_text(kind, sequence)) <==> kind != SeriesKind::Event,
{
    let digits = decimal_digits(sequence);
    let id = series_id_text(kind, sequence);
    lemma_decimal_digits_are_digits(sequence);
    assert forall|i: int| 0 <= i < id.len() implies #[trigger] id[i] != ':' by {
        if i >= 2 {
            assert(id[i] == digits[i - 2]);
            assert(is_digit(digits[i - 2]));
        }
    }
    let head = seq![kind_char(kind)];
    assert(free_of(head, '|'));
    lemma_text_before_joined(head, '|', digits);
    assert(head[0] == kind_char(kind));
    assert(seq!['1'][0] == '1');
    assert(seq!['2'][0] == '2');
    assert(seq!['3'][0] == '3');
    if kind == SeriesKind::Event {
        assert(head =~= seq!['1']);
    } else if kind == SeriesKind::Companion {
        assert(head =~= seq!['2']);
    } else {
        assert(head =~= seq!['3']);
    }
}

/// Two series identifiers are equal only for the same kind and sequence.
pub proof fn lemma_series_id_injective(k1: SeriesKind, n1: nat, k2: SeriesKind, n2: nat)
    requires
        series_id_text(k1, n1) == series_id_text(k2, n2),
    ensures
        k1 == k2,
        n1 == n2,
{
    let a = series_id_text(k1, n1);
    let b = series_id_text(k2, n2);
    assert(a[0] == kind_char(k1));
    assert(b[0] == kind_char(k2));
    assert(a.subrange(2, a.len() as int) =~= decimal_digits(n1));
    assert(b.subrange(2, b.len() as int) =~= decimal_digits(n2));
    lemma_decimal_injective(n1, n2);
}

/// An item identifier names its series, and keeps the series' kind tag.
pub proof fn lemma_item_id_shape(series_id: Seq<char>, number: nat)
    requires
        free_of(series_id, ':'),
    ensures
        series_of_item(item_id_text(series_id, number)) == series_id,
        prefix_len(series_id, '|') < series_id.len() ==> kind_tag(item_id_text(series_id, number))
            == kind_tag(series_id),
{
    let digits = decimal_digits(number);
    lemma_text_before_joined(series_id, ':', digits);
    let p = prefix_len(series_id, '|') as int;
    if p < series_id.len() {
        let item = item_id_text(series_id, number);
        lemma_prefix_len_bounds(series_id, '|');
        assert forall|j: int| 0 <= j < p implies #[trigger] item[j] != '|' by {
            assert(item[j] == series_id[j]);
        }
        assert(item[p] == series_id[p]);
        lemma_prefix_len_is(item, '|', p);
        assert(item.take(p) =~= series_id.take(p));
    }
}

/// Two item identifiers of series without `:` are equal only for the same
/// series and number.
pub proof fn lemma_item_id_injective(s1: Seq<char>, n1: nat, s2: Seq<char>, n2: nat)
    requires
        free_of(s1, ':'),
        free_of(s2, ':'),
        item_id_text(s1, n1) == item_id_text(s2, n2),
    ensures
        s1 == s2,
        n1 == n2,
{
    lemma_item_id_shape(s1, n1);
    lemma_item_id_shape(s2, n2);
    let a = item_id_text(s1, n1);
    let b = item_id_text(s2, n2);
    assert(a.subrange(s1.len() as int + 1, a.len() as int) =~= decimal_digits(n1));
    assert(b.subrange(s2.len() as int + 1, b.len() as int) =~= decimal_digits(n2));
    lemma_decimal_injective(n1, n2);
}

impl SeriesKind {
    /// The character that stands for the kind in an identifier.
    pub fn tag(&self) -> (c: char)
        ensures
            c == kind_char(*self),
    {
        match self {
            SeriesKind::Event => '1',
            SeriesKind::Companion => '2',
            SeriesKind::Object => '3',
        }
    }
}

/// Writes the identifier of the series of `kind` with the given sequence.
pub fn series_id_string(kind: SeriesKind, sequence: u128) -> (id: String)
    ensures
        id@ == series_id_text(kind, sequence as nat),
{
    let mut id = String::new();
    push_char(&mut id, kind.tag());
    push_char(&mut id, KIND_DELIMETER);
    let digits = decimal_string(sequence);
    id.append(digits.as_str());
    assert(id@ =~= series_id_text(kind, sequence as nat));
    id
}

/// Writes the identifier of item `number` of the series `series_id`.
pub fn item_id_string(series_id: &String, number: u64) -> (id: String)
    ensures
        id@ == item_id_text(series_id@, number as nat),
{
    let mut id = series_id.clone();
    push_char(&mut id, TOKEN_DELIMETER);
    let digits = decimal_string(number as u128);
    id.append(digits.as_str());
    id
}

/// Whether the identifier names an event.
pub fn id_is_event(id: &String) -> (b: bool)
    ensures
        b == is_event_id(id@),
{
    let tag = prefix_before(id, KIND_DELIMETER);
    let one = String::from_str("1");
    proof {
        reveal_strlit("1");
        assert(one@ =~= seq!['1']);
    }
    tag == one
}

/// Whether the identifier names a companion of either sort.
pub fn id_is_object(id: &String) -> (b: bool)
    ensures
        b == is_object_id(id@),
{
    let tag = prefix_before(id, KIND_DELIMETER);
    let two = String::from_str("2");
    let three = String::from_str("3");
    proof {
        reveal_strlit("2");
        reveal_strlit("3");
        assert(two@ =~= seq!['2']);
        assert(three@ =~= seq!['3']);
    }
    tag == two || tag == three
}

/// The series identifier that an item identifier starts with.
pub fn series_id_of_item(item_id: &String) -> (id: String)
    ensures
        id@ == series_of_item(item_id@),
{
    prefix_before(item_id, TOKEN_DELIMETER)
}

} // verus!
