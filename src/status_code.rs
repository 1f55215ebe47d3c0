use vstd::prelude::*;

verus! {

/// The key under which the responses of an operation are grouped: an exact
/// code such as `404`, or a class `4XX` of all codes with the same hundreds digit.
///
/// Keys compare by variant first (every exact code before every class) and
/// then by their number.
#[derive(Clone, Copy, Debug, Hash, PartialEq, Eq, Structural, Ord)]
pub enum StatusCode {
    Code(u16),
    Range(u16),
}

/// An integer as a document node presents it.
#[derive(Clone, Copy, Debug, PartialEq, Eq, Structural)]
pub enum Number {
    Signed(i64),
    Unsigned(u64),
}

/// The shapes of a document node that can never be a status code.
#[derive(Clone, Copy, Debug, PartialEq, Eq, Structural)]
pub enum Kind {
    Bool,
    Null,
    Float,
    Sequence,
    Mapping,
}

/// One node of a parsed document, as far as a status code is read from it.
#[derive(Clone, Debug, PartialEq, Eq)]
pub enum Node {
    Signed(i64),
    Unsigned(u64),
    Text(String),
    Other(Kind),
}

/// Why a node is not a status code. Each error keeps the offending value.
#[derive(Clone, Debug, PartialEq, Eq)]
pub enum DecodeError {
    /// An integer outside `100..=999`.
    OutOfRange(Number),
    /// A string whose length in characters is not 3.
    WrongLength(String),
    /// A string of 3 characters that is neither an integer nor of the form `\dXX`.
    InvalidFormat(String),
    /// A node that is neither an integer nor a string.
    WrongType(Kind),
}

/// What reading a node gives, with strings taken as their characters.
pub enum Decoded {
    Key(StatusCode),
    OutOfRange(Number),
    WrongLength(Seq<char>),
    InvalidFormat(Seq<char>),
    WrongType(Kind),
}

impl Number {
    /// The integer itself, whichever way it was presented.
    pub open spec fn value(self) -> int {
        match self {
            Number::Signed(v) => v as int,
            Number::Unsigned(v) => v as int,
        }
    }
}

/// A decoder's result, with the strings in its errors taken as their characters.
pub open spec fn decoded(r: Result<StatusCode, DecodeError>) -> Decoded {
    match r {
        Ok(k) => Decoded::Key(k),
        Err(DecodeError::OutOfRange(n)) => Decoded::OutOfRange(n),
        Err(DecodeError::WrongLength(s)) => Decoded::WrongLength(s@),
        Err(DecodeError::InvalidFormat(s)) => Decoded::InvalidFormat(s@),
        Err(DecodeError::WrongType(k)) => Decoded::WrongType(k),
    }
}

/// An ASCII decimal digit.
pub open spec fn is_digit(c: char) -> bool {
    '0' <= c <= '9'
}

/// The number that a decimal digit stands for.
pub open spec fn digit_value(c: char) -> int {
    c as int - '0' as int
}

/// `X` as the second and third character of a class, in either case.
pub open spec fn is_wildcard(c: char) -> bool {
    c == 'X' || c == 'x'
}

/// Every character is a decimal digit.
pub open spec fn all_digits(s: Seq<char>) -> bool {
    forall|i: int| 0 <= i < s.len() ==> is_digit(#[trigger] s[i])
}

/// The number that a string of decimal digits writes.
pub open spec fn digits_value(s: Seq<char>) -> int
    decreases s.len(),
{
    if s.len() == 0 {
        0
    } else {
        digits_value(s.drop_last()) * 10 + digit_value(s.last())
    }
}

/// A base-10 integer: an optional sign, then at least one digit, and nothing else.
pub open spec fn is_integer_text(s: Seq<char>) -> bool {
    (s.len() > 0 && all_digits(s)) || (s.len() > 1 && (s[0] == '+' || s[0] == '-')
        && all_digits(s.drop_first()))
}

/// The number that an integer text writes, sign included.
pub open spec fn integer_text_value(s: Seq<char>) -> int {
    if s[0] == '-' {
        -digits_value(s.drop_first())
    } else if s[0] == '+' {
        digits_value(s.drop_first())
    } else {
        digits_value(s)
    }
}

/// An integer is a status code exactly when it lies in `100..=999`.
pub open spec fn number_decoding(n: Number) -> Decoded {
    if 100 <= n.value() <= 999 {
        Decoded::Key(StatusCode::Code(n.value() as u16))
    } else {
        Decoded::OutOfRange(n)
    }
}

/// A string must have 3 characters; an integer among them is read as a
/// number, and otherwise it must be a digit followed by two `X` in either case.
pub open spec fn text_decoding(s: Seq<char>) -> Decoded {
    if s.len() != 3 {
        Decoded::WrongLength(s)
    } else if is_integer_text(s) {
        number_decoding(Number::Signed(integer_text_value(s) as i64))
    } else if is_digit(s[0]) && is_wildcard(s[1]) && is_wildcard(s[2]) {
        Decoded::Key(StatusCode::Range(digit_value(s[0]) as u16))
    } else {
        Decoded::InvalidFormat(s)
    }
}

impl Node {
    /// What reading this node gives.
    pub open spec fn decoding(self) -> Decoded {
        match self {
            Node::Signed(v) => number_decoding(Number::Signed(v)),
            Node::Unsigned(v) => number_decoding(Number::Unsigned(v)),
            Node::Text(s) => text_decoding(s@),
            Node::Other(k) => Decoded::WrongType(k),
        }
    }
}

impl StatusCode {
    /// An exact code lies in `100..=999`; a class digit in `0..=9`.
    pub open spec fn well_formed(self) -> bool {
        match self {
            StatusCode::Code(n) => 100 <= n <= 999,
            StatusCode::Range(d) => d <= 9,
        }
    }

    pub fn is_well_formed(&self) -> (r: bool)
        ensures
            r == self.well_formed(),
    {
        match *self {
            StatusCode::Code(n) => 100 <= n && n <= 999,
            StatusCode::Range(d) => d <= 9,
        }
    }

    /// Reads a signed integer node.
    pub fn from_signed(value: i64) -> (r: Result<StatusCode, DecodeError>)
        ensures
            decoded(r) == number_decoding(Number::Signed(value)),
    {
        if 100 <= value && value < 1000 {
            Ok(StatusCode::Code(value as u16))
        } else {
            Err(DecodeError::OutOfRange(Number::Signed(value)))
        }
    }

    /// Reads an unsigned integer node.
    pub fn from_unsigned(value: u64) -> (r: Result<StatusCode, DecodeError>)
        ensures
            decoded(r) == number_decoding(Number::Unsigned(value)),
    {
        if 100 <= value && value < 1000 {
            Ok(StatusCode::Code(value as u16))
        } else {
            Err(DecodeError::OutOfRange(Number::Unsigned(value)))
        }
    }
}

fn is_digit_char(c: char) -> (r: bool)
    ensures
        r == is_digit(c),
{
    '0' <= c && c <= '9'
}

fn digit_of(c: char) -> (r: u16)
    requires
        is_digit(c),
    ensures
        r as int == digit_value(c),
        r <= 9,
{
    (c as u32 - '0' as u32) as u16
}

impl StatusCode {
    /// Reads a string node.
    pub fn from_text(value: &str) -> (r: Result<StatusCode, DecodeError>)
        ensures
            decoded(r) == text_decoding(value@),
    {
        if value.unicode_len() != 3 {
            return Err(DecodeError::WrongLength(value.to_string()));
        }
        let c0 = value.get_char(0);
        let c1 = value.get_char(1);
        let c2 = value.get_char(2);
        let s = Ghost(value@);
        if is_digit_char(c1) && is_digit_char(c2) {
            let tail = digit_of(c1) * 10 + digit_of(c2);
            proof {
                let t = s@.drop_first();
                assert(t.drop_last().drop_last() =~= Seq::<char>::empty());
                assert(t.drop_last().last() == c1);
                assert(t.last() == c2);
                reveal_with_fuel(digits_value, 3);
                assert(digits_value(t) == tail as int);
            }
            if is_digit_char(c0) {
                proof {
                    assert(s@.drop_last().drop_first() =~= s@.drop_first().drop_last());
                    reveal_with_fuel(digits_value, 4);
                    assert(s@.drop_last().drop_last().drop_last() =~= Seq::<char>::empty());
                    assert(all_digits(s@));
                }
                return StatusCode::from_signed((digit_of(c0) * 100 + tail) as i64);
            } else if c0 == '+' {
                proof {
                    assert(all_digits(s@.drop_first()));
                }
                return StatusCode::from_signed(tail as i64);
            } else if c0 == '-' {
                proof {
                    assert(all_digits(s@.drop_first()));
                }
                return StatusCode::from_signed(-(tail as i64));
            }
        }
        proof {
            assert(s@.drop_first()[0] == c1 && s@.drop_first()[1] == c2);
            if all_digits(s@) {
                assert(is_digit(s@[1]) && is_digit(s@[2]));
            }
            if all_digits(s@.drop_first()) {
                assert(is_digit(s@.drop_first()[0]) && is_digit(s@.drop_first()[1]));
            }
        }
        if is_digit_char(c0) && (c1 == 'X' || c1 == 'x') && (c2 == 'X' || c2 == 'x') {
            Ok(StatusCode::Range(digit_of(c0)))
        } else {
            Err(DecodeError::InvalidFormat(value.to_string()))
        }
    }

    /// Reads a document node: an integer, or a string as `from_text` reads it.
    pub fn decode(node: &Node) -> (r: Result<StatusCode, DecodeError>)
        ensures
            decoded(r) == node.decoding(),
    {
        match node {
            Node::Signed(v) => StatusCode::from_signed(*v),
            Node::Unsigned(v) => StatusCode::from_unsigned(*v),
            Node::Text(s) => StatusCode::from_text(s.as_str()),
            Node::Other(k) => Err(DecodeError::WrongType(*k)),
        }
    }
}

/// The decimal digit character of `d`, for `d` in `0..=9`.
pub open spec fn digit_char(d: int) -> char {
    if d == 0 {
        '0'
    } else if d == 1 {
        '1'
    } else if d == 2 {
        '2'
    } else if d == 3 {
        '3'
    } else if d == 4 {
        '4'
    } else if d == 5 {
        '5'
    } else if d == 6 {
        '6'
    } else if d == 7 {
        '7'
    } else if d == 8 {
        '8'
    } else {
        '9'
    }
}

impl StatusCode {
    /// The one text that a key is written as: the three digits of an exact
    /// code, or the class digit followed by `XX`.
    pub open spec fn canonical(self) -> Seq<char> {
        match self {
            StatusCode::Code(n) => seq![
                digit_char(n as int / 100),
                digit_char(n as int / 10 % 10),
                digit_char(n as int % 10),
            ],
            StatusCode::Range(d) => seq![digit_char(d as int), 'X', 'X'],
        }
    }
}

fn digit_text(d: u16) -> (r: &'static str)
    requires
        d <= 9,
    ensures
        r@ == seq![digit_char(d as int)],
{
    if d == 0 {
        proof { reveal_strlit("0"); }
        "0"
    } else if d == 1 {
        proof { reveal_strlit("1"); }
        "1"
    } else if d == 2 {
        proof { reveal_strlit("2"); }
        "2"
    } else if d == 3 {
        proof { reveal_strlit("3"); }
        "3"
    } else if d == 4 {
        proof { reveal_strlit("4"); }
        "4"
    } else if d == 5 {
        proof { reveal_strlit("5"); }
        "5"
    } else if d == 6 {
        proof { reveal_strlit("6"); }
        "6"
    } else if d == 7 {
        proof { reveal_strlit("7"); }
        "7"
    } else if d == 8 {
        proof { reveal_strlit("8"); }
        "8"
    } else {
        proof { reveal_strlit("9"); }
        "9"
    }
}

impl StatusCode {
    /// Writes the key in its canonical form.
    pub fn to_string(&self) -> (r: String)
        requires
            self.well_formed(),
        ensures
            r@ == self.canonical(),
    {
        let mut r = String::new();
        match *self {
            StatusCode::Code(n) => {
                r.append(digit_text(n / 100));
                r.append(digit_text(n / 10 % 10));
                r.append(digit_text(n % 10));
            },
            StatusCode::Range(d) => {
                r.append(digit_text(d));
                proof { reveal_strlit("XX"); }
                r.append("XX");
            },
        }
        assert(r@ =~= self.canonical());
        r
    }
}

/// Every exact code comes before every class; within a variant the smaller
/// number comes first.
pub open spec fn precedes(a: StatusCode, b: StatusCode) -> bool {
    match (a, b) {
        (StatusCode::Code(x), StatusCode::Code(y)) => x < y,
        (StatusCode::Range(x), StatusCode::Range(y)) => x < y,
        (StatusCode::Code(_), StatusCode::Range(_)) => true,
        (StatusCode::Range(_), StatusCode::Code(_)) => false,
    }
}

/// The ordering of two keys under `precedes`.
pub open spec fn compare(a: StatusCode, b: StatusCode) -> core::cmp::Ordering {
    if precedes(a, b) {
        core::cmp::Ordering::Less
    } else if a == b {
        core::cmp::Ordering::Equal
    } else {
        core::cmp::Ordering::Greater
    }
}

impl PartialOrd for StatusCode {
    fn partial_cmp(&self, other: &StatusCode) -> (r: Option<core::cmp::Ordering>)
        ensures
            r == Some(compare(*self, *other)),
    {
        let (x, y, same_variant) = match (*self, *other) {
            (StatusCode::Code(x), StatusCode::Code(y)) => (x, y, true),
            (StatusCode::Range(x), StatusCode::Range(y)) => (x, y, true),
            (StatusCode::Code(_), StatusCode::Range(_)) => (0u16, 1u16, false),
            (StatusCode::Range(_), StatusCode::Code(_)) => (1u16, 0u16, false),
        };
        if x < y {
            Some(core::cmp::Ordering::Less)
        } else if x == y && same_variant {
            Some(core::cmp::Ordering::Equal)
        } else {
            Some(core::cmp::Ordering::Greater)
        }
    }
}

impl vstd::std_specs::cmp::PartialOrdSpecImpl for StatusCode {
    open spec fn obeys_partial_cmp_spec() -> bool {
        true
    }

    open spec fn partial_cmp_spec(&self, other: &StatusCode) -> Option<core::cmp::Ordering> {
        Some(compare(*self, *other))
    }
}

} // verus!
