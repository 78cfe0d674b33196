//! Decimal numerals: the text of an unsigned number and its value.

use vstd::prelude::*;

verus! {

/// Whether `c` is one of the ten ASCII digits.
pub open spec fn is_digit(c: char) -> bool {
    '0' <= c <= '9'
}

/// The value of an ASCII digit.
pub open spec fn digit_value(c: char) -> nat
    recommends
        is_digit(c),
{
    (c as int - '0' as int) as nat
}

/// The ASCII digit that stands for `d`.
pub open spec fn digit_char(d: nat) -> char
    recommends
        d < 10,
{
    seq!['0', '1', '2', '3', '4', '5', '6', '7', '8', '9'][d as int]
}

/// Whether `s` is a non-empty run of ASCII digits.
pub open spec fn is_numeral(s: Seq<char>) -> bool {
    &&& s.len() > 0
    &&& forall|i: int| 0 <= i < s.len() ==> is_digit(#[trigger] s[i])
}

/// The number that a run of digits denotes, most significant digit first.
pub open spec fn numeral_value(s: Seq<char>) -> nat
    decreases s.len(),
{
    if s.len() == 0 {
        0
    } else {
        10 * numeral_value(s.drop_last()) + digit_value(s.last())
    }
}

/// The decimal numeral of `n`, without leading zeros.
pub open spec fn decimal_text(n: nat) -> Seq<char>
    decreases n,
{
    if n < 10 {
        seq![digit_char(n)]
    } else {
        decimal_text(n / 10).push(digit_char(n % 10))
    }
}

/// The text without one leading plus sign.
pub open spec fn unsigned_part(s: Seq<char>) -> Seq<char> {
    if s.len() > 0 && s[0] == '+' {
        s.drop_first()
    } else {
        s
    }
}

/// The number that `s` denotes as a `u64`: an optional plus sign followed by
/// one or more ASCII digits whose value fits in 64 bits. Anything else
/// denotes no number.
pub open spec fn parsed_u64(s: Seq<char>) -> Option<u64> {
    let digits = unsigned_part(s);
    if is_numeral(digits) && numeral_value(digits) <= u64::MAX {
        Some(numeral_value(digits) as u64)
    } else {
        None
    }
}

/// A longer run of digits denotes no smaller a number than any of its
/// prefixes.
pub proof fn lemma_numeral_value_prefix(s: Seq<char>, k: int)
    requires
        0 <= k <= s.len(),
    ensures
        numeral_value(s.take(k)) <= numeral_value(s),
    decreases s.len() - k,
{
    if k == s.len() {
        assert(s.take(k) =~= s);
    } else {
        lemma_numeral_value_prefix(s, k + 1);
        assert(s.take(k + 1).drop_last() =~= s.take(k));
    }
}

/// The numeral of `n` is a run of digits whose value is `n`.
pub proof fn lemma_decimal_text_value(n: nat)
    ensures
        is_numeral(decimal_text(n)),
        numeral_value(decimal_text(n)) == n,
    decreases n,
{
    if n < 10 {
        let s = decimal_text(n);
        assert(s.drop_last() =~= Seq::<char>::empty());
        assert(numeral_value(s.drop_last()) == 0);
    } else {
        lemma_decimal_text_value(n / 10);
        let head = decimal_text(n / 10);
        let s = decimal_text(n);
        assert(s.drop_last() =~= head);
        assert(s.last() == digit_char(n % 10));
        assert forall|i: int| 0 <= i < s.len() implies is_digit(#[trigger] s[i]) by {
            if i < head.len() {
                assert(s[i] == head[i]);
            }
        }
    }
}

/// Reading back the numeral of a 64-bit number gives that number.
pub proof fn lemma_parse_decimal_text(n: u64)
    ensures
        parsed_u64(decimal_text(n as nat)) == Some(n),
{
    lemma_decimal_text_value(n as nat);
    let s = decimal_text(n as nat);
    assert(is_digit(s[0]));
    assert(unsigned_part(s) == s);
}

/// Different numbers have different numerals.
pub proof fn lemma_decimal_text_injective(a: nat, b: nat)
    requires
        decimal_text(a) == decimal_text(b),
    ensures
        a == b,
{
    lemma_decimal_text_value(a);
    lemma_decimal_text_value(b);
}

/// Reads `text` as a `u64`, as `parsed_u64` defines it.
pub fn parse_u64(text: &str) -> (parsed: Option<u64>)
    ensures
        parsed == parsed_u64(text@),
{
    let mut value: u64 = 0;
    let mut at_start = true;
    let mut signed = false;
    let mut any_digit = false;
    for c in it: text.chars()
        invariant
            it.seq() == text@,
            at_start == (it.index() == 0),
            signed == (it.index() > 0 && text@[0] == '+'),
            any_digit == (it.index() > (if signed { 1int } else { 0int })),
            forall|j: int| (if signed { 1int } else { 0int }) <= j < it.index() ==> is_digit(#[trigger] text@[j]),
            value == numeral_value(text@.subrange(if signed { 1int } else { 0int }, it.index() as int)),
    {
        let ghost i = it.index() as int;
        let ghost from = if signed { 1int } else { 0int };
        if at_start && c == '+' {
            signed = true;
            assert(text@.subrange(1, 1) =~= Seq::<char>::empty());
        } else if c >= '0' && c <= '9' {
            let digit: u64 = (c as u64) - ('0' as u64);
            proof {
                let body = text@.subrange(from, i + 1);
                assert(body.drop_last() =~= text@.subrange(from, i));
                assert(body.last() == c);
                let digits = unsigned_part(text@);
                assert(digits =~= text@.subrange(from, text@.len() as int));
                assert(digits.take(i + 1 - from) =~= body);
                lemma_numeral_value_prefix(digits, i + 1 - from);
            }
            let scaled = match value.checked_mul(10) {
                Some(scaled) => scaled,
                None => {
                    return None;
                },
            };
            value = match scaled.checked_add(digit) {
                Some(sum) => sum,
                None => {
                    return None;
                },
            };
            any_digit = true;
        } else {
            proof {
                let digits = unsigned_part(text@);
                assert(digits =~= text@.subrange(from, text@.len() as int));
                assert(digits[i - from] == c);
                assert(!is_digit(digits[i - from]));
            }
            return None;
        }
        at_start = false;
    }
    proof {
        let from = if signed { 1int } else { 0int };
        let digits = unsigned_part(text@);
        assert(digits =~= text@.subrange(from, text@.len() as int));
    }
    if any_digit {
        Some(value)
    } else {
        None
    }
}

/// The one-character text of a digit.
fn digit_text(d: u64) -> (text: &'static str)
    requires
        d < 10,
    ensures
        text@ == seq![digit_char(d as nat)],
{
    proof {
        reveal_strlit("0");
        reveal_strlit("1");
        reveal_strlit("2");
        reveal_strlit("3");
        reveal_strlit("4");
        reveal_strlit("5");
        reveal_strlit("6");
        reveal_strlit("7");
        reveal_strlit("8");
        reveal_strlit("9");
    }
    let text = match d {
        0 => "0",
        1 => "1",
        2 => "2",
        3 => "3",
        4 => "4",
        5 => "5",
        6 => "6",
        7 => "7",
        8 => "8",
        _ => "9",
    };
    assert(text@ =~= seq![digit_char(d as nat)]);
    text
}

/// Appends the decimal numeral of `n` to `out`.
pub fn append_decimal(out: &mut String, n: u64)
    ensures
        final(out)@ == old(out)@ + decimal_text(n as nat),
    decreases n,
{
    if n >= 10 {
        append_decimal(out, n / 10);
    }
    out.append(digit_text(n % 10));
    assert(out@ =~= old(out)@ + decimal_text(n as nat));
}

/// The decimal numeral of `n` as a string.
pub fn decimal_string(n: u64) -> (text: String)
    ensures
        text@ == decimal_text(n as nat),
{
    let mut text = String::new();
    append_decimal(&mut text, n);
    assert(text@ =~= decimal_text(n as nat));
    text
}

} // verus!
