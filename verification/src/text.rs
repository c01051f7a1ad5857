//! Text helpers: decimal rendering of counters and splitting of identifiers
//! at a delimiter.

use vstd::prelude::*;
use vstd::string::*;

verus! {

/// The character of the decimal digit `d`.
pub open spec fn digit_char(d: nat) -> char
    recommends
        d < 10,
{
    ((48 + d) as u8) as char
}

/// Whether `c` is one of `'0'` to `'9'`.
pub open spec fn is_digit(c: char) -> bool {
    '0' <= c <= '9'
}

/// The decimal digits of `n`, most significant first, with no leading zero.
pub open spec fn decimal_digits(n: nat) -> Seq<char>
    decreases n,
{
    if n < 10 {
        seq![digit_char(n)]
    } else {
        decimal_digits(n / 10).push(digit_char(n % 10))
    }
}

/// The number that a sequence of decimal digits denotes.
pub open spec fn decimal_value(s: Seq<char>) -> nat
    decreases s.len(),
{
    if s.len() == 0 {
        0
    } else {
        (10 * decimal_value(s.drop_last()) + ((s.last() as u8) - 48)) as nat
    }
}

/// Every character of a decimal rendering is a digit, and there is at least one.
pub proof fn lemma_decimal_digits_are_digits(n: nat)
    ensures
        decimal_digits(n).len() >= 1,
        forall|i: int| 0 <= i < decimal_digits(n).len() ==> is_digit(#[trigger] decimal_digits(n)[i]),
    decreases n,
{
    if n >= 10 {
        lemma_decimal_digits_are_digits(n / 10);
    }
}

/// Reading a decimal rendering back gives the number.
pub proof fn lemma_decimal_round_trip(n: nat)
    ensures
        decimal_value(decimal_digits(n)) == n,
    decreases n,
{
    if n < 10 {
        let s = decimal_digits(n);
        assert(s.drop_last() =~= Seq::<char>::empty());
        assert(decimal_value(s.drop_last()) == 0);
    } else {
        lemma_decimal_round_trip(n / 10);
        let s = decimal_digits(n);
        assert(s.drop_last() =~= decimal_digits(n / 10));
    }
}

/// Two numbers with the same decimal rendering are equal.
pub proof fn lemma_decimal_injective(a: nat, b: nat)
    requires
        decimal_digits(a) == decimal_digits(b),
    ensures
        a == b,
{
    lemma_decimal_round_trip(a);
    lemma_decimal_round_trip(b);
}

/// Appends `c` to `s` by `String::push`. Trusted: the text grows by exactly
/// that character at its end.
#[verifier::external_body]
pub(crate) fn push_char(s: &mut String, c: char)
    ensures
        final(s)@ == old(s)@.push(c),
{
    s.push(c)
}

/// Renders `n` in decimal.
pub fn decimal_string(n: u128) -> (s: String)
    ensures
        s@ == decimal_digits(n as nat),
    decreases n,
{
    if n < 10 {
        let mut s = String::new();
        let d: u8 = 48u8 + (n as u8);
        push_char(&mut s, d as char);
        assert(s@ =~= decimal_digits(n as nat));
        s
    } else {
        let mut s = decimal_string(n / 10);
        let d: u8 = 48u8 + ((n % 10) as u8);
        push_char(&mut s, d as char);
        s
    }
}

/// The number of characters of `s` that stand before the first `delim`, or
/// the whole length where `s` holds none.
pub open spec fn prefix_len(s: Seq<char>, delim: char) -> nat
    decreases s.len(),
{
    if s.len() == 0 || s[0] == delim {
        0
    } else {
        1 + prefix_len(s.drop_first(), delim)
    }
}

/// The part of `s` before the first `delim`; all of `s` where it holds none.
pub open spec fn text_before(s: Seq<char>, delim: char) -> Seq<char> {
    s.take(prefix_len(s, delim) as int)
}

/// Whether `delim` occurs nowhere in `s`.
pub open spec fn free_of(s: Seq<char>, delim: char) -> bool {
    forall|i: int| 0 <= i < s.len() ==> #[trigger] s[i] != delim
}

/// A position that no `delim` precedes and that either ends `s` or holds a
/// `delim` is the length of the prefix before the first `delim`.
pub proof fn lemma_prefix_len_is(s: Seq<char>, delim: char, p: int)
    requires
        0 <= p <= s.len(),
        forall|j: int| 0 <= j < p ==> #[trigger] s[j] != delim,
        p == s.len() || s[p] == delim,
    ensures
        prefix_len(s, delim) == p,
    decreases s.len(),
{
    if s.len() == 0 || s[0] == delim {
    } else {
        let t = s.drop_first();
        assert forall|j: int| 0 <= j < p - 1 implies #[trigger] t[j] != delim by {
            assert(t[j] == s[j + 1]);
        }
        lemma_prefix_len_is(t, delim, p - 1);
    }
}

/// The prefix before the first `delim` of `a + [delim] + b` is `a`, where `a`
/// holds no `delim`.
pub proof fn lemma_text_before_joined(a: Seq<char>, delim: char, b: Seq<char>)
    requires
        free_of(a, delim),
    ensures
        text_before(a.push(delim) + b, delim) == a,
{
    let s = a.push(delim) + b;
    assert forall|j: int| 0 <= j < a.len() implies #[trigger] s[j] != delim by {
        assert(s[j] == a[j]);
    }
    assert(s[a.len() as int] == delim);
    lemma_prefix_len_is(s, delim, a.len() as int);
    assert(s.take(a.len() as int) =~= a);
}

/// What `prefix_len` returns: a position in `s` that no `delim` precedes and
/// that ends `s` or holds a `delim`.
pub proof fn lemma_prefix_len_bounds(s: Seq<char>, delim: char)
    ensures
        prefix_len(s, delim) <= s.len(),
        forall|j: int| 0 <= j < prefix_len(s, delim) ==> #[trigger] s[j] != delim,
        prefix_len(s, delim) < s.len() ==> s[prefix_len(s, delim) as int] == delim,
    decreases s.len(),
{
    if s.len() == 0 || s[0] == delim {
    } else {
        let t = s.drop_first();
        lemma_prefix_len_bounds(t, delim);
        assert forall|j: int| 0 <= j < prefix_len(s, delim) implies #[trigger] s[j] != delim by {
            if j > 0 {
                assert(s[j] == t[j - 1]);
            }
        }
        if prefix_len(s, delim) < s.len() {
            assert(s[prefix_len(s, delim) as int] == t[prefix_len(t, delim) as int]);
        }
    }
}

/// The position of `t` in `list`, or the length of `list` where it does not
/// hold `t`.
pub open spec fn text_position(list: Seq<Seq<char>>, t: Seq<char>) -> int
    decreases list.len(),
{
    if list.len() == 0 {
        0
    } else if list[0] == t {
        0
    } else {
        1 + text_position(list.drop_first(), t)
    }
}

/// Whether `list` holds `t`.
pub open spec fn has_text(list: Seq<Seq<char>>, t: Seq<char>) -> bool {
    exists|i: int| 0 <= i < list.len() && #[trigger] list[i] == t
}

/// No text occurs twice in `list`.
pub open spec fn distinct_texts(list: Seq<Seq<char>>) -> bool {
    forall|i: int, j: int| 0 <= i < j < list.len() ==> #[trigger] list[i] != #[trigger] list[j]
}

/// What `text_position` returns: the first position of `t`, or the length.
pub proof fn lemma_text_position(list: Seq<Seq<char>>, t: Seq<char>)
    ensures
        0 <= text_position(list, t) <= list.len(),
        text_position(list, t) < list.len() ==> list[text_position(list, t)] == t,
        forall|i: int| 0 <= i < text_position(list, t) ==> #[trigger] list[i] != t,
        has_text(list, t) <==> text_position(list, t) < list.len(),
    decreases list.len(),
{
    if list.len() == 0 {
    } else if list[0] == t {
    } else {
        let rest = list.drop_first();
        lemma_text_position(rest, t);
        let p = text_position(list, t);
        assert forall|i: int| 0 <= i < p implies #[trigger] list[i] != t by {
            if i > 0 {
                assert(list[i] == rest[i - 1]);
            }
        }
        if p < list.len() {
            assert(list[p] == rest[p - 1]);
        }
        if has_text(list, t) {
            let i = choose|i: int| 0 <= i < list.len() && #[trigger] list[i] == t;
            assert(rest[i - 1] == list[i]);
            assert(has_text(rest, t));
        }
    }
}

/// A position that holds `t` and that no `t` precedes is the position of `t`.
pub proof fn lemma_text_position_is(list: Seq<Seq<char>>, t: Seq<char>, p: int)
    requires
        0 <= p <= list.len(),
        forall|i: int| 0 <= i < p ==> #[trigger] list[i] != t,
        p < list.len() ==> list[p] == t,
    ensures
        text_position(list, t) == p,
{
    lemma_text_position(list, t);
    let q = text_position(list, t);
    if q < p {
        assert(list[q] == t);
    } else if p < q {
        assert(list[p] == t);
    }
}

/// A text that a list holds stands at the same position in every list that
/// starts with that list.
pub proof fn lemma_text_position_in_extension(list: Seq<Seq<char>>, longer: Seq<Seq<char>>, t: Seq<char>)
    requires
        list.len() <= longer.len(),
        forall|i: int| 0 <= i < list.len() ==> #[trigger] longer[i] == list[i],
        has_text(list, t),
    ensures
        text_position(longer, t) == text_position(list, t),
        has_text(longer, t),
{
    lemma_text_position(list, t);
    let p = text_position(list, t);
    assert forall|i: int| 0 <= i < p implies #[trigger] longer[i] != t by {
        assert(longer[i] == list[i]);
    }
    assert(longer[p] == list[p]);
    lemma_text_position_is(longer, t, p);
    lemma_text_position(longer, t);
}

/// The position of `t` in a list of strings, if the list holds it.
pub fn find_text(list: &Vec<String>, t: &String) -> (r: Option<usize>)
    ensures
        match r {
            Some(i) => i == text_position(list.deep_view(), t@) && i < list@.len(),
            None => text_position(list.deep_view(), t@) == list@.len(),
        },
{
    let mut i: usize = 0;
    while i < list.len()
        invariant
            i <= list.len(),
            forall|j: int| 0 <= j < i ==> #[trigger] list.deep_view()[j] != t@,
        decreases list.len() - i,
    {
        if list[i] == *t {
            proof {
                assert(list.deep_view()[i as int] == t@);
                lemma_text_position_is(list.deep_view(), t@, i as int);
            }
            return Some(i);
        }
        assert(list.deep_view()[i as int] == list@[i as int]@);
        i = i + 1;
    }
    proof {
        lemma_text_position_is(list.deep_view(), t@, list@.len() as int);
    }
    None
}

/// Whether no string occurs twice in the list.
pub fn texts_are_distinct(list: &Vec<String>) -> (b: bool)
    ensures
        b == distinct_texts(list.deep_view()),
{
    let ghost texts = list.deep_view();
    let mut j: usize = 0;
    while j < list.len()
        invariant
            j <= list.len(),
            texts == list.deep_view(),
            forall|a: int, b: int| 0 <= a < b < j ==> #[trigger] texts[a] != #[trigger] texts[b],
        decreases list.len() - j,
    {
        let mut i: usize = 0;
        while i < j
            invariant
                i <= j < list.len(),
                texts == list.deep_view(),
                forall|a: int| 0 <= a < i ==> #[trigger] texts[a] != texts[j as int],
            decreases j - i,
        {
            assert(texts[i as int] == list@[i as int]@);
            assert(texts[j as int] == list@[j as int]@);
            if list[i] == list[j] {
                return false;
            }
            i = i + 1;
        }
        j = j + 1;
    }
    true
}

/// The part of `s` before the first `delim`, as a new string.
pub fn prefix_before(s: &String, delim: char) -> (r: String)
    ensures
        r@ == text_before(s@, delim),
{
    let text = s.as_str();
    let n = text.unicode_len();
    let mut i: usize = 0;
    while i < n
        invariant_except_break
            i <= n,
        invariant
            n == text@.len(),
            0 <= i <= n,
            forall|j: int| 0 <= j < i ==> #[trigger] text@[j] != delim,
        ensures
            i == n || text@[i as int] == delim,
        decreases n - i,
    {
        if text.get_char(i) == delim {
            break;
        }
        i = i + 1;
    }
    proof {
        lemma_prefix_len_is(text@, delim, i as int);
    }
    let head = text.substring_char(0, i);
    assert(head@ =~= text_before(s@, delim));
    head.to_owned()
}

} // verus!
