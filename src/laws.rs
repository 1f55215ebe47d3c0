//! Facts about status-code keys that relate reading, writing and comparing.
use vstd::prelude::*;
use crate::status_code::{
    StatusCode, Node, Decoded, text_decoding, number_decoding, digit_char, digit_value,
    digits_value, is_digit, is_wildcard, all_digits, precedes,
};

verus! {

/// Upper-cases an ASCII letter and leaves every other character as it is.
pub open spec fn ascii_upper(c: char) -> char {
    if 'a' <= c <= 'z' {
        (c as u32 - 32) as char
    } else {
        c
    }
}

/// A text with its ASCII letters upper-cased.
pub open spec fn upper_text(s: Seq<char>) -> Seq<char> {
    s.map_values(|c: char| ascii_upper(c))
}

proof fn lemma_digit_char(d: int)
    requires
        0 <= d <= 9,
    ensures
        is_digit(digit_char(d)),
        digit_value(digit_char(d)) == d,
        ascii_upper(digit_char(d)) == digit_char(d),
{
}

proof fn lemma_code_digits(n: u16)
    requires
        100 <= n <= 999,
    ensures
        all_digits(StatusCode::Code(n).canonical()),
        digits_value(StatusCode::Code(n).canonical()) == n as int,
{
    let s = StatusCode::Code(n).canonical();
    lemma_digit_char(n as int / 100);
    lemma_digit_char(n as int / 10 % 10);
    lemma_digit_char(n as int % 10);
    assert(s.drop_last().drop_last().drop_last() =~= Seq::<char>::empty());
    reveal_with_fuel(digits_value, 4);
}

/// Writing a well-formed key and reading the text back gives the same key.
pub proof fn lemma_round_trip(v: StatusCode)
    requires
        v.well_formed(),
    ensures
        text_decoding(v.canonical()) == Decoded::Key(v),
{
    match v {
        StatusCode::Code(n) => {
            lemma_code_digits(n);
        },
        StatusCode::Range(d) => {
            lemma_digit_char(d as int);
            let s = v.canonical();
            assert(!is_digit(s[1]));
            assert(!all_digits(s));
            assert(!all_digits(s.drop_first())) by {
                assert(s.drop_first()[0] == s[1]);
            }
        },
    }
}

/// Whatever surface form a node used, the key read from it is well formed,
/// its canonical text reads back as the same key, and that text is the
/// node's own text upper-cased, or the decimal digits of the node's integer.
pub proof fn lemma_canonical_form(x: Node, v: StatusCode)
    requires
        x.decoding() == Decoded::Key(v),
    ensures
        v.well_formed(),
        text_decoding(v.canonical()) == Decoded::Key(v),
        x matches Node::Text(s) ==> v.canonical() == upper_text(s@),
        x matches Node::Signed(n) ==> all_digits(v.canonical()) && digits_value(v.canonical())
            == n as int,
        x matches Node::Unsigned(n) ==> all_digits(v.canonical()) && digits_value(
            v.canonical(),
        ) == n as int,
{
    match x {
        Node::Signed(n) => {
            lemma_code_digits(n as u16);
            lemma_round_trip(v);
        },
        Node::Unsigned(n) => {
            lemma_code_digits(n as u16);
            lemma_round_trip(v);
        },
        Node::Text(t) => {
            let s = t@;
            lemma_text_canonical(s, v);
            lemma_round_trip(v);
        },
        Node::Other(_) => {},
    }
}

proof fn lemma_digit_of_char(c: char)
    requires
        is_digit(c),
    ensures
        digit_char(digit_value(c)) == c,
        ascii_upper(c) == c,
{
}

proof fn lemma_two_digits(t: Seq<char>)
    requires
        t.len() == 2,
        all_digits(t),
    ensures
        digits_value(t) == 10 * digit_value(t[0]) + digit_value(t[1]),
        0 <= digits_value(t) <= 99,
{
    assert(is_digit(t[0]) && is_digit(t[1]));
    assert(t.drop_last().drop_last() =~= Seq::<char>::empty());
    reveal_with_fuel(digits_value, 3);
}

proof fn lemma_text_canonical(s: Seq<char>, v: StatusCode)
    requires
        text_decoding(s) == Decoded::Key(v),
    ensures
        v.well_formed(),
        v.canonical() == upper_text(s),
{
    assert(s.len() == 3);
    let u = upper_text(s);
    if all_digits(s) {
        assert(is_digit(s[0]) && is_digit(s[1]) && is_digit(s[2]));
        lemma_two_digits(s.drop_first());
        assert(s.drop_last().drop_first() =~= s.drop_first().drop_last());
        assert(s.drop_last().drop_last().drop_last() =~= Seq::<char>::empty());
        reveal_with_fuel(digits_value, 4);
        lemma_digit_of_char(s[0]);
        lemma_digit_of_char(s[1]);
        lemma_digit_of_char(s[2]);
        assert(v.canonical() =~= u);
    } else if s.len() > 1 && (s[0] == '+' || s[0] == '-') && all_digits(s.drop_first()) {
        lemma_two_digits(s.drop_first());
    } else {
        lemma_digit_of_char(s[0]);
        assert(v.canonical() =~= u);
    }
}

/// Keys are strictly and totally ordered: no key precedes itself, the order
/// is transitive, of two different keys exactly one precedes the other.
pub proof fn lemma_strict_total_order(a: StatusCode, b: StatusCode, c: StatusCode)
    ensures
        !precedes(a, a),
        precedes(a, b) && precedes(b, c) ==> precedes(a, c),
        precedes(a, b) ==> !precedes(b, a),
        a != b ==> precedes(a, b) || precedes(b, a),
{
}

/// Every string whose length in characters is not 3 is refused for its length.
pub proof fn lemma_wrong_length(s: Seq<char>)
    requires
        s.len() != 3,
    ensures
        text_decoding(s) == Decoded::WrongLength(s),
{
}

/// A digit followed by two `X`, each in either case, is the class of that digit.
pub proof fn lemma_class_text(d: char, x: char, y: char)
    requires
        is_digit(d),
        is_wildcard(x),
        is_wildcard(y),
    ensures
        text_decoding(seq![d, x, y]) == Decoded::Key(StatusCode::Range(digit_value(d) as u16)),
{
    let s = seq![d, x, y];
    assert(!is_digit(s[1]));
    assert(s.drop_first()[0] == s[1]);
}

} // verus!
