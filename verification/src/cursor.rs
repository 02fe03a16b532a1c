//! The mailbox cursor: the position of the next mailbox entry to fetch.
//!
//! The configuration gives the starting position as decimal text. The cursor
//! moves by one each time an entry was there to be fetched, and never back.

use vstd::prelude::*;
use vstd::string::StringExecFns;
use crate::error::BridgeError;
use crate::text::chars_of;

verus! {

/// Whether `c` is one of the ten decimal digits.
pub open spec fn is_digit(c: char) -> bool {
    '0' <= c <= '9'
}

/// The number that the digits of `s` write in base ten; zero for no digits.
pub open spec fn digits_value(s: Seq<char>) -> int
    decreases s.len(),
{
    if s.len() == 0 {
        0
    } else {
        digits_value(s.drop_last()) * 10 + (s.last() as u32 - '0' as u32)
    }
}

/// Whether `s` is one or more decimal digits.
pub open spec fn is_number(s: Seq<char>) -> bool {
    s.len() > 0 && forall|i: int| 0 <= i < s.len() ==> is_digit(#[trigger] s[i])
}

/// Whether `s` starts with a sign.
pub open spec fn has_sign(s: Seq<char>) -> bool {
    s.len() > 0 && (s[0] == '-' || s[0] == '+')
}

/// `s` without its sign, if it has one.
pub open spec fn unsigned_part(s: Seq<char>) -> Seq<char> {
    if has_sign(s) {
        s.skip(1)
    } else {
        s
    }
}

/// The integer that `s` writes: an optional sign, `+` or `-`, and then one or
/// more decimal digits. `None` where `s` has another form or the integer
/// does not fit in 32 bits.
pub open spec fn decimal_i32(s: Seq<char>) -> Option<int> {
    let digits = unsigned_part(s);
    let value = if has_sign(s) && s[0] == '-' {
        -digits_value(digits)
    } else {
        digits_value(digits)
    };
    if is_number(digits) && i32::MIN <= value <= i32::MAX {
        Some(value)
    } else {
        None
    }
}

/// More digits never write a smaller number.
pub proof fn lemma_digits_value_grows(s: Seq<char>, n: int)
    requires
        0 <= n <= s.len(),
        forall|i: int| 0 <= i < s.len() ==> is_digit(#[trigger] s[i]),
    ensures
        0 <= digits_value(s.take(n)) <= digits_value(s),
    decreases s.len(),
{
    if s.len() == 0 {
        assert(s.take(n) =~= s);
    } else if n == s.len() {
        assert(s.take(n) =~= s);
        lemma_digits_value_grows(s.drop_last(), n - 1);
    } else {
        lemma_digits_value_grows(s.drop_last(), n);
        assert(s.drop_last().take(n) =~= s.take(n));
    }
}

/// One more digit multiplies what was written so far by ten and adds the
/// digit.
pub proof fn lemma_digits_value_step(s: Seq<char>, n: int)
    requires
        0 <= n < s.len(),
    ensures
        digits_value(s.take(n + 1)) == digits_value(s.take(n)) * 10 + (s[n] as u32 - '0' as u32),
{
    assert(s.take(n + 1).drop_last() =~= s.take(n));
}

/// Digits whose first `n` already write more than 2^31 write no 32-bit
/// integer, with either sign.
pub proof fn lemma_too_large(s: Seq<char>, n: int)
    requires
        0 <= n <= unsigned_part(s).len(),
        digits_value(unsigned_part(s).take(n)) > 0x8000_0000,
    ensures
        decimal_i32(s) is None,
{
    let digits = unsigned_part(s);
    if is_number(digits) {
        lemma_digits_value_grows(digits, n);
    }
}

/// Reads a 32-bit integer written in decimal.
pub fn parse_decimal(text: &str) -> (r: Option<i32>)
    ensures
        match r {
            Some(v) => decimal_i32(text@) == Some(v as int),
            None => decimal_i32(text@) is None,
        },
{
    let chars = chars_of(text);
    let len: usize = chars.len();
    let negative: bool = len > 0 && chars[0] == '-';
    let start: usize = if len > 0 && (chars[0] == '-' || chars[0] == '+') {
        1
    } else {
        0
    };
    if start >= len {
        return None;
    }
    let ghost digits = unsigned_part(text@);
    assert(digits =~= text@.skip(start as int));
    let mut value: i64 = 0;
    let mut i: usize = start;
    while i < len
        invariant
            start <= i <= len,
            len == chars.len(),
            chars@ == text@,
            digits == unsigned_part(text@),
            digits.len() == len - start,
            forall|k: int| 0 <= k < len - start ==> digits[k] == chars@[k + start],
            forall|k: int| 0 <= k < i - start ==> is_digit(#[trigger] digits[k]),
            value == digits_value(digits.take(i - start)),
            0 <= value <= 0x8000_0000,
        decreases len - i,
    {
        let c: char = chars[i];
        if !('0' <= c && c <= '9') {
            assert(!is_digit(digits[i - start]));
            return None;
        }
        let d: i64 = (c as u32 - '0' as u32) as i64;
        proof {
            lemma_digits_value_step(digits, i - start);
        }
        value = value * 10 + d;
        i += 1;
        if value > 0x8000_0000 {
            proof {
                lemma_too_large(text@, i - start);
            }
            return None;
        }
    }
    assert(digits.take(i - start) =~= digits);
    if negative {
        Some((-value) as i32)
    } else if value > 0x7FFF_FFFF {
        None
    } else {
        Some(value as i32)
    }
}

/// The character that writes the digit `d`.
pub open spec fn digit_char(d: int) -> char {
    if d == 0 {
        '0'
    } else if d == 1 {
        '1'
    } else if d == 2 {
        '2'
    } else if d == 3 {
        '3'
    } else if d == 4 {
        '4'
    } else if d == 5 {
        '5'
    } else if d == 6 {
        '6'
    } else if d == 7 {
        '7'
    } else if d == 8 {
        '8'
    } else {
        '9'
    }
}

/// The digits that write `n` in base ten, without leading zeros.
pub open spec fn natural_text(n: nat) -> Seq<char>
    decreases n,
{
    if n < 10 {
        seq![digit_char(n as int)]
    } else {
        natural_text(n / 10).push(digit_char((n % 10) as int))
    }
}

/// The decimal text of `n`: its digits, behind a minus sign if it is
/// negative.
pub open spec fn decimal_text(n: int) -> Seq<char> {
    if n < 0 {
        seq!['-'] + natural_text((-n) as nat)
    } else {
        natural_text(n as nat)
    }
}

/// The digits of a number are digits, and they write that number.
pub proof fn lemma_natural_text(n: nat)
    ensures
        is_number(natural_text(n)),
        digits_value(natural_text(n)) == n,
    decreases n,
{
    let text = natural_text(n);
    if n < 10 {
        assert(text.drop_last() =~= Seq::<char>::empty());
        assert(digits_value(text.drop_last()) == 0);
    } else {
        lemma_natural_text(n / 10);
        assert(text.drop_last() =~= natural_text(n / 10));
    }
}

/// Reading the decimal text of a 32-bit integer gives that integer back.
pub proof fn lemma_decimal_round_trip(n: int)
    requires
        i32::MIN <= n <= i32::MAX,
    ensures
        decimal_i32(decimal_text(n)) == Some(n),
{
    let text = decimal_text(n);
    if n < 0 {
        lemma_natural_text((-n) as nat);
        assert(text[0] == '-');
        assert(text.skip(1) =~= natural_text((-n) as nat));
    } else {
        lemma_natural_text(n as nat);
        assert(text[0] != '-' && text[0] != '+');
    }
}

/// The one-character text of a digit.
fn digit_str(d: u32) -> (r: &'static str)
    requires
        d < 10,
    ensures
        r@ == seq![digit_char(d as int)],
{
    proof {
        reveal_strlit("0");
        reveal_strlit("1");
        reveal_strlit("2");
        reveal_strlit("3");
        reveal_strlit("4");
        reveal_strlit("5");
        reveal_strlit("6");
        reveal_strlit("7");
        reveal_strlit("8");
        reveal_strlit("9");
    }
    let r = if d == 0 {
        "0"
    } else if d == 1 {
        "1"
    } else if d == 2 {
        "2"
    } else if d == 3 {
        "3"
    } else if d == 4 {
        "4"
    } else if d == 5 {
        "5"
    } else if d == 6 {
        "6"
    } else if d == 7 {
        "7"
    } else if d == 8 {
        "8"
    } else {
        "9"
    };
    assert(r@ =~= seq![digit_char(d as int)]);
    r
}

/// Writes a natural number in decimal.
pub fn natural_string(n: u32) -> (r: String)
    ensures
        r@ == natural_text(n as nat),
    decreases n,
{
    if n < 10 {
        String::from_str(digit_str(n))
    } else {
        let r = natural_string(n / 10).concat(digit_str(n % 10));
        assert(r@ =~= natural_text((n / 10) as nat).push(digit_char((n % 10) as int)));
        r
    }
}

/// Writes a 32-bit integer in decimal.
pub fn decimal_string(n: i32) -> (r: String)
    ensures
        r@ == decimal_text(n as int),
{
    if n < 0 {
        let magnitude: u32 = (-(n as i64)) as u32;
        proof {
            reveal_strlit("-");
            assert("-"@ =~= seq!['-']);
        }
        String::from_str("-").concat(natural_string(magnitude).as_str())
    } else {
        natural_string(n as u32)
    }
}

/// The position of the next mailbox entry to fetch.
#[derive(Clone, Copy, Debug, PartialEq, Eq, Structural)]
pub struct MailboxCursor {
    /// The sequence position.
    pub position: i32,
}

/// Where a cursor at `position` stands after one poll iteration: one further
/// if an entry was present, and where it was if none was.
pub open spec fn cursor_step(position: int, present: bool) -> int {
    if present {
        position + 1
    } else {
        position
    }
}

impl MailboxCursor {
    /// The cursor at `position`.
    pub fn new(position: i32) -> (c: MailboxCursor)
        ensures
            c.position == position,
    {
        MailboxCursor { position }
    }

    /// The cursor that the configured starting position gives. Text that
    /// writes no 32-bit integer is a configuration error.
    pub fn from_config(starting_at: &str) -> (r: Result<MailboxCursor, BridgeError>)
        ensures
            match r {
                Ok(c) => decimal_i32(starting_at@) == Some(c.position as int),
                Err(e) => decimal_i32(starting_at@) is None && e == BridgeError::Config,
            },
    {
        match parse_decimal(starting_at) {
            Some(position) => Ok(MailboxCursor { position }),
            None => Err(BridgeError::Config),
        }
    }

    /// The position as the sequence set of a fetch command: its decimal
    /// text, which `from_config` reads back to this cursor.
    pub fn sequence_set(&self) -> (r: String)
        ensures
            r@ == decimal_text(self.position as int),
            decimal_i32(r@) == Some(self.position as int),
    {
        proof {
            lemma_decimal_round_trip(self.position as int);
        }
        decimal_string(self.position)
    }

    /// The cursor after one poll iteration.
    pub fn advance(self, present: bool) -> (c: MailboxCursor)
        requires
            present ==> self.position < i32::MAX,
        ensures
            c.position == cursor_step(self.position as int, present),
    {
        if present {
            MailboxCursor { position: self.position + 1 }
        } else {
            self
        }
    }
}

} // verus!
