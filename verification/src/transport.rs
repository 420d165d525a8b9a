//! What a transport layer needs to put the core on the wire: the status for
//! each outcome, and the text form of a session identifier.
//!
//! On the wire a session identifier is its decimal number without a sign and
//! without leading zeros, so that every session has one text and every such
//! text names one session.

use crate::error::NegotiationError;
use vstd::prelude::*;
use vstd::std_specs::iter::IteratorSpec;

verus! {

/// The status of an offer that was answered.
pub const OFFER_ANSWERED: u16 = 200;

/// The status of a candidate that was taken.
pub const CANDIDATE_TAKEN: u16 = 204;

/// The status of a request to close, whatever came of it.
pub const CLOSED: u16 = 204;

/// The status for `result`: `success` where it is one, else the status of the
/// error.
pub open spec fn status_of<T>(result: Result<T, NegotiationError>, success: u16) -> u16 {
    match result {
        Ok(_) => success,
        Err(e) => e.status(),
    }
}

/// The status with which a transport layer answers a request that had the
/// outcome `result`: `success` where it is one, else the status of the error.
pub fn response_status<T>(result: &Result<T, NegotiationError>, success: u16) -> (code: u16)
    ensures
        code == status_of(*result, success),
{
    match result {
        Ok(_) => success,
        Err(e) => e.status_code(),
    }
}

/// Whether `c` is a decimal digit.
pub open spec fn is_digit(c: char) -> bool {
    '0' as u32 <= c as u32 && c as u32 <= '9' as u32
}

/// The value of the decimal digit `c`; zero for any other character.
pub open spec fn digit_value(c: char) -> nat {
    if is_digit(c) {
        (c as u32 - '0' as u32) as nat
    } else {
        0
    }
}

/// The decimal digit with the value `d`, for `d` below ten.
pub open spec fn digit_char(d: nat) -> char {
    ('0' as u32 + d) as char
}

/// The number that the decimal digits of `text` denote.
pub open spec fn decimal_value(text: Seq<char>) -> nat
    decreases text.len(),
{
    if text.len() == 0 {
        0
    } else {
        decimal_value(text.drop_last()) * 10 + digit_value(text.last())
    }
}

/// The decimal digits of `n`, without leading zeros.
pub open spec fn decimal_text(n: nat) -> Seq<char>
    decreases n,
{
    if n < 10 {
        seq![digit_char(n)]
    } else {
        decimal_text(n / 10).push(digit_char(n % 10))
    }
}

/// Whether `text` is made of decimal digits only, and of at least one.
pub open spec fn all_digits(text: Seq<char>) -> bool {
    text.len() > 0 && forall|i: int| 0 <= i < text.len() ==> is_digit(#[trigger] text[i])
}

/// Whether `text` is the text of a session identifier: decimal digits
/// without a leading zero, of a number that an identifier can hold.
pub open spec fn is_session_id_text(text: Seq<char>) -> bool {
    &&& all_digits(text)
    &&& text.len() > 1 ==> text[0] != '0'
    &&& decimal_value(text) <= u64::MAX
}

/// The session identifier that `text` names, if it names one.
pub open spec fn session_id_of(text: Seq<char>) -> Option<u64> {
    if is_session_id_text(text) {
        Some(decimal_value(text) as u64)
    } else {
        None
    }
}

/// A digit has a value below ten, which is zero for `0` only, and is the
/// digit of its value.
pub proof fn lemma_digit(c: char)
    requires
        is_digit(c),
    ensures
        digit_value(c) < 10,
        c != '0' ==> digit_value(c) >= 1,
        digit_char(digit_value(c)) == c,
{
}

/// The digit of a value below ten has that value, and is `0` for zero only.
pub proof fn lemma_digit_char(d: nat)
    requires
        d < 10,
    ensures
        is_digit(digit_char(d)),
        digit_value(digit_char(d)) == d,
        d >= 1 ==> digit_char(d) != '0',
{
}

/// Appending a character never lowers the value, and the value of a text is
/// at least that of each of its beginnings.
pub proof fn lemma_value_grows(text: Seq<char>, n: int)
    requires
        0 <= n <= text.len(),
    ensures
        decimal_value(text.take(n)) <= decimal_value(text),
    decreases text.len() - n,
{
    if n < text.len() {
        lemma_value_grows(text, n + 1);
        assert(text.take(n + 1).drop_last() =~= text.take(n));
    } else {
        assert(text.take(n) =~= text);
    }
}

/// Digits that do not begin with a zero denote a number that is not zero.
pub proof fn lemma_value_positive(text: Seq<char>)
    requires
        all_digits(text),
        text[0] != '0',
    ensures
        decimal_value(text) >= 1,
    decreases text.len(),
{
    let front = text.drop_last();
    assert(is_digit(text[text.len() - 1]));
    if text.len() == 1 {
        assert(front =~= Seq::empty());
        assert(decimal_value(front) == 0);
        assert(text.last() == text[0]);
        lemma_digit(text[0]);
    } else {
        assert(front[0] == text[0]);
        assert forall|i: int| 0 <= i < front.len() implies is_digit(#[trigger] front[i]) by {
            assert(front[i] == text[i]);
        }
        lemma_value_positive(front);
    }
}

/// The decimal text of a number is made of digits, begins with a zero only
/// for zero itself, and denotes the number.
pub proof fn lemma_decimal_text(n: nat)
    ensures
        all_digits(decimal_text(n)),
        decimal_text(n).len() > 1 ==> decimal_text(n)[0] != '0',
        n >= 1 ==> decimal_text(n)[0] != '0',
        decimal_value(decimal_text(n)) == n,
    decreases n,
{
    let text = decimal_text(n);
    if n < 10 {
        lemma_digit_char(n);
        assert(text.drop_last() =~= Seq::empty());
        assert(text.last() == digit_char(n));
        assert(decimal_value(text.drop_last()) == 0);
    } else {
        let front = decimal_text(n / 10);
        lemma_decimal_text(n / 10);
        lemma_digit_char(n % 10);
        assert(text.drop_last() =~= front);
        assert(text.last() == digit_char(n % 10));
        assert(text[0] == front[0]);
        assert forall|i: int| 0 <= i < text.len() implies is_digit(#[trigger] text[i]) by {
            if i < front.len() {
                assert(text[i] == front[i]);
            }
        }
    }
}

/// The text of a session identifier is the decimal text of the number it
/// denotes.
pub proof fn lemma_text_is_decimal(text: Seq<char>)
    requires
        all_digits(text),
        text.len() > 1 ==> text[0] != '0',
    ensures
        text == decimal_text(decimal_value(text)),
    decreases text.len(),
{
    let front = text.drop_last();
    let last = text.last();
    assert(is_digit(text[text.len() - 1]));
    lemma_digit(last);
    if text.len() == 1 {
        assert(front =~= Seq::empty());
        assert(decimal_value(front) == 0);
        assert(text =~= seq![last]);
    } else {
        assert(front[0] == text[0]);
        assert forall|i: int| 0 <= i < front.len() implies is_digit(#[trigger] front[i]) by {
            assert(front[i] == text[i]);
        }
        lemma_text_is_decimal(front);
        lemma_value_positive(front);
        let v = decimal_value(front);
        let d = digit_value(last);
        assert((v * 10 + d) / 10 == v && (v * 10 + d) % 10 == d);
        assert(text =~= front.push(last));
    }
}

fn is_decimal_digit(c: char) -> (b: bool)
    ensures
        b == is_digit(c),
{
    '0' <= c && c <= '9'
}

fn digit_text(d: u64) -> (text: &'static str)
    requires
        d < 10,
    ensures
        text@ == seq![digit_char(d as nat)],
{
    proof {
        reveal_strlit("0");
        reveal_strlit("1");
        reveal_strlit("2");
        reveal_strlit("3");
        reveal_strlit("4");
        reveal_strlit("5");
        reveal_strlit("6");
        reveal_strlit("7");
        reveal_strlit("8");
        reveal_strlit("9");
    }
    let text = if d == 0 {
        "0"
    } else if d == 1 {
        "1"
    } else if d == 2 {
        "2"
    } else if d == 3 {
        "3"
    } else if d == 4 {
        "4"
    } else if d == 5 {
        "5"
    } else if d == 6 {
        "6"
    } else if d == 7 {
        "7"
    } else if d == 8 {
        "8"
    } else {
        "9"
    };
    assert(text@ =~= seq![digit_char(d as nat)]);
    text
}

fn push_decimal(out: &mut String, n: u64)
    ensures
        final(out)@ == old(out)@ + decimal_text(n as nat),
    decreases n,
{
    if n >= 10 {
        push_decimal(out, n / 10);
    }
    let ghost before = out@;
    out.append(digit_text(n % 10));
    proof {
        if n >= 10 {
            assert(out@ =~= old(out)@ + decimal_text(n as nat));
        } else {
            assert(out@ =~= old(out)@ + decimal_text(n as nat));
        }
    }
}

/// The text of the session identifier `id` on the wire.
pub fn session_id_text(id: u64) -> (text: String)
    ensures
        text@ == decimal_text(id as nat),
        session_id_of(text@) == Some(id),
{
    let mut text = String::new();
    push_decimal(&mut text, id);
    proof {
        assert(text@ =~= decimal_text(id as nat));
        lemma_decimal_text(id as nat);
    }
    text
}

/// Reads a session identifier from its text on the wire. A text that is no
/// identifier's text names no session.
pub fn parse_session_id(text: &str) -> (id: Option<u64>)
    ensures
        id == session_id_of(text@),
{
    let mut chars = text.chars();
    let ghost all = text@;
    let ghost mut pos: int = 0;
    let mut value: u64 = 0;
    let mut first = true;
    let mut leading_zero = false;
    loop
        invariant
            all == text@,
            first <==> pos == 0,
            0 <= pos <= all.len(),
            chars.remaining() == all.subrange(pos, all.len() as int),
            forall|i: int| 0 <= i < pos ==> is_digit(#[trigger] all[i]),
            value == decimal_value(all.take(pos)),
            leading_zero <==> pos >= 1 && all[0] == '0',
            leading_zero ==> pos == 1,
        decreases all.len() - pos,
    {
        match chars.next() {
            None => {
                proof {
                    assert(all.take(pos) =~= all);
                }
                if first {
                    return None;
                }
                return Some(value);
            },
            Some(c) => {
                assert(c == all[pos]);
                if !is_decimal_digit(c) || leading_zero {
                    proof {
                        if !leading_zero {
                            assert(!is_digit(all[pos]));
                        }
                    }
                    return None;
                }
                let digit = (c as u32 - '0' as u32) as u64;
                proof {
                    assert(all.take(pos + 1).drop_last() =~= all.take(pos));
                    assert(all.take(pos + 1).last() == c);
                    lemma_value_grows(all, pos + 1);
                }
                let tenfold = match value.checked_mul(10) {
                    Some(tenfold) => tenfold,
                    None => {
                        return None;
                    },
                };
                value = match tenfold.checked_add(digit) {
                    Some(sum) => sum,
                    None => {
                        return None;
                    },
                };
                if first && c == '0' {
                    leading_zero = true;
                }
                first = false;
                proof {
                    pos = pos + 1;
                }
            },
        }
    }
}

} // verus!
