//! The text of the listener's reply: a job id in decimal.

use vstd::prelude::*;
use crate::transport::TransportError;
use crate::transport::ZmqJob;

verus! {

/// The character that stands for the digit `d`.
pub open spec fn digit_char(d: int) -> char {
    if d == 0 {
        '0'
    } else if d == 1 {
        '1'
    } else if d == 2 {
        '2'
    } else if d == 3 {
        '3'
    } else if d == 4 {
        '4'
    } else if d == 5 {
        '5'
    } else if d == 6 {
        '6'
    } else if d == 7 {
        '7'
    } else if d == 8 {
        '8'
    } else {
        '9'
    }
}

/// The digit that the character `c` stands for, or 10 where it stands for none.
pub open spec fn digit_of(c: char) -> int {
    if c == '0' {
        0
    } else if c == '1' {
        1
    } else if c == '2' {
        2
    } else if c == '3' {
        3
    } else if c == '4' {
        4
    } else if c == '5' {
        5
    } else if c == '6' {
        6
    } else if c == '7' {
        7
    } else if c == '8' {
        8
    } else if c == '9' {
        9
    } else {
        10
    }
}

/// The decimal digits of `n`, without leading zeros.
pub open spec fn decimal(n: nat) -> Seq<char>
    decreases n,
{
    if n < 10 {
        seq![digit_char(n as int)]
    } else {
        decimal(n / 10).push(digit_char((n % 10) as int))
    }
}

/// The text of the id `id`: its decimal digits, behind a minus sign where it is negative.
pub open spec fn id_text(id: int) -> Seq<char> {
    if id < 0 {
        seq!['-'] + decimal((-id) as nat)
    } else {
        decimal(id as nat)
    }
}

/// Every character of `s` is a decimal digit.
pub open spec fn all_digits(s: Seq<char>) -> bool {
    forall|i: int| 0 <= i < s.len() ==> digit_of(#[trigger] s[i]) < 10
}

/// The number that the digits `s` spell.
pub open spec fn digits_value(s: Seq<char>) -> int
    decreases s.len(),
{
    if s.len() == 0 {
        0
    } else {
        digits_value(s.drop_last()) * 10 + digit_of(s.last())
    }
}

/// Whether the text `s` starts with a sign.
pub open spec fn has_sign(s: Seq<char>) -> bool {
    s.len() > 0 && (s[0] == '-' || s[0] == '+')
}

/// The id that the text `s` spells: an optional sign and then at least one
/// digit, for a number that a 64-bit signed integer holds.
pub open spec fn parsed_id(s: Seq<char>) -> Option<i64> {
    let body = if has_sign(s) { s.subrange(1, s.len() as int) } else { s };
    let value = if has_sign(s) && s[0] == '-' { -digits_value(body) } else { digits_value(body) };
    if body.len() > 0 && all_digits(body) && i64::MIN <= value <= i64::MAX {
        Some(value as i64)
    } else {
        None
    }
}

fn digit_str(d: u64) -> (s: &'static str)
    requires
        d < 10,
    ensures
        s@ == seq![digit_char(d as int)],
{
    proof {
        reveal_strlit("0");
        reveal_strlit("1");
        reveal_strlit("2");
        reveal_strlit("3");
        reveal_strlit("4");
        reveal_strlit("5");
        reveal_strlit("6");
        reveal_strlit("7");
        reveal_strlit("8");
        reveal_strlit("9");
    }
    let s = if d == 0 {
        "0"
    } else if d == 1 {
        "1"
    } else if d == 2 {
        "2"
    } else if d == 3 {
        "3"
    } else if d == 4 {
        "4"
    } else if d == 5 {
        "5"
    } else if d == 6 {
        "6"
    } else if d == 7 {
        "7"
    } else if d == 8 {
        "8"
    } else {
        "9"
    };
    assert(s@ =~= seq![digit_char(d as int)]);
    s
}

fn push_decimal(text: &mut String, n: u64)
    ensures
        final(text)@ == old(text)@ + decimal(n as nat),
    decreases n,
{
    if n >= 10 {
        push_decimal(text, n / 10);
    }
    text.append(digit_str(n % 10));
    assert(text@ =~= old(text)@ + decimal(n as nat));
}

/// The reply that tells a client the id of its job.
pub fn reply_text(job_id: i64) -> (text: String)
    ensures
        text@ == id_text(job_id as int),
{
    let mut text = String::new();
    if job_id < 0 {
        proof {
            reveal_strlit("-");
        }
        text.append("-");
        assert(text@ =~= seq!['-']);
        let magnitude: u64 = (-(job_id + 1)) as u64 + 1;
        push_decimal(&mut text, magnitude);
    } else {
        push_decimal(&mut text, job_id as u64);
        assert(text@ =~= id_text(job_id as int));
    }
    text
}

fn digit_value(c: char) -> (d: u64)
    ensures
        d == digit_of(c),
{
    if c == '0' {
        0
    } else if c == '1' {
        1
    } else if c == '2' {
        2
    } else if c == '3' {
        3
    } else if c == '4' {
        4
    } else if c == '5' {
        5
    } else if c == '6' {
        6
    } else if c == '7' {
        7
    } else if c == '8' {
        8
    } else if c == '9' {
        9
    } else {
        10
    }
}

proof fn lemma_prefix_value(s: Seq<char>, k: int)
    requires
        all_digits(s),
        0 <= k <= s.len(),
    ensures
        0 <= digits_value(s.subrange(0, k)) <= digits_value(s),
    decreases s.len() - k,
{
    if k == s.len() {
        assert(s.subrange(0, k) =~= s);
        lemma_value_not_negative(s);
    } else {
        lemma_prefix_value(s, k + 1);
        let longer = s.subrange(0, k + 1);
        assert(longer.drop_last() =~= s.subrange(0, k));
        assert(longer.last() == s[k]);
        lemma_value_not_negative(s.subrange(0, k));
    }
}

proof fn lemma_value_not_negative(s: Seq<char>)
    ensures
        0 <= digits_value(s),
    decreases s.len(),
{
    if s.len() > 0 {
        lemma_value_not_negative(s.drop_last());
    }
}

/// The id that a reply spells, as the handle of the remote job; a reply that
/// spells none is malformed.
pub fn parse_reply(text: &str) -> (r: Result<ZmqJob, TransportError>)
    ensures
        r == match parsed_id(text@) {
            Some(id) => Ok::<ZmqJob, TransportError>(ZmqJob { id }),
            None => Err::<ZmqJob, TransportError>(TransportError::Malformed),
        },
{
    let n = text.unicode_len();
    if n == 0 {
        return Err(TransportError::Malformed);
    }
    let first = text.get_char(0);
    let negative = first == '-';
    let start: usize = if first == '-' || first == '+' { 1 } else { 0 };
    if start == n {
        return Err(TransportError::Malformed);
    }
    let ghost body = text@.subrange(start as int, n as int);
    assert(!has_sign(text@) ==> body =~= text@);
    let limit: u64 = if negative { 9223372036854775808u64 } else { 9223372036854775807u64 };
    let mut magnitude: u64 = 0;
    let mut i: usize = start;
    while i < n
        invariant
            start <= i <= n,
            n == text@.len(),
            body == text@.subrange(start as int, n as int),
            body == (if has_sign(text@) { text@.subrange(1, text@.len() as int) } else { text@ }),
            negative == (has_sign(text@) && text@[0] == '-'),
            limit == (if negative { 9223372036854775808u64 } else { 9223372036854775807u64 }),
            all_digits(body.subrange(0, i - start)),
            magnitude == digits_value(body.subrange(0, i - start)),
            magnitude <= limit,
        decreases n - i,
    {
        let d = digit_value(text.get_char(i));
        if d >= 10 {
            assert(digit_of(body[i - start]) >= 10);
            return Err(TransportError::Malformed);
        }
        let next: u128 = magnitude as u128 * 10 + d as u128;
        proof {
            let longer = body.subrange(0, i - start + 1);
            assert(longer.drop_last() =~= body.subrange(0, i - start));
            assert(longer.last() == body[i - start]);
            assert(next == digits_value(longer));
            assert(all_digits(longer)) by {
                assert forall|k: int| 0 <= k < longer.len() implies digit_of(#[trigger] longer[k]) < 10 by {
                    if k < i - start {
                        assert(body.subrange(0, i - start)[k] == longer[k]);
                    }
                }
            }
            if all_digits(body) {
                lemma_prefix_value(body, i - start + 1);
            }
        }
        if next > limit as u128 {
            return Err(TransportError::Malformed);
        }
        magnitude = next as u64;
        i += 1;
    }
    assert(body.subrange(0, n - start) =~= body);
    let id: i64 = if negative {
        if magnitude == 9223372036854775808u64 {
            i64::MIN
        } else {
            -(magnitude as i64)
        }
    } else {
        magnitude as i64
    };
    Ok(ZmqJob { id })
}

proof fn lemma_decimal_is_digits(n: nat)
    ensures
        decimal(n).len() > 0,
        all_digits(decimal(n)),
        digits_value(decimal(n)) == n,
        !has_sign(decimal(n)),
    decreases n,
{
    if n < 10 {
        let s = decimal(n);
        assert(s.drop_last() =~= Seq::<char>::empty());
        assert(digits_value(s.drop_last()) == 0);
    } else {
        lemma_decimal_is_digits(n / 10);
        let s = decimal(n);
        assert(s.drop_last() =~= decimal(n / 10));
        assert(s[0] == decimal(n / 10)[0]);
    }
}

/// A client reads back from a reply exactly the id that the listener wrote.
pub proof fn lemma_reply_round_trip(id: i64)
    ensures
        parsed_id(id_text(id as int)) == Some(id),
{
    if id < 0 {
        let digits = decimal((-id) as nat);
        lemma_decimal_is_digits((-id) as nat);
        let s = id_text(id as int);
        assert(s[0] == '-');
        assert(s.subrange(1, s.len() as int) =~= digits);
    } else {
        lemma_decimal_is_digits(id as nat);
    }
}

} // verus!
