//! Prices as whole hundredths, and their decimal text.
//!
//! A price is held as a `u64` count of hundredths, so that `1250` stands for
//! `12.50`. Its text is the whole part in decimal digits, a dot, and exactly
//! two fraction digits. Reading is more generous than writing: an optional
//! leading `+`, a whole part or a fraction part that may be missing (not
//! both), and any number of fraction digits, of which the third rounds the
//! hundredths half up.

use crate::error::LedgerError;
use crate::text::chars_of;
use vstd::prelude::*;

verus! {

/// `c` is one of the ten decimal digits.
pub open spec fn is_digit(c: char) -> bool {
    '0' <= c && c <= '9'
}

/// The number a decimal digit stands for.
pub open spec fn digit_value(c: char) -> nat {
    (c as int - '0' as int) as nat
}

/// The decimal digit that stands for `d`, for `d` below ten.
pub open spec fn digit_char(d: nat) -> char {
    (d + '0' as nat) as char
}

/// Every character of `s` is a decimal digit.
pub open spec fn all_digits(s: Seq<char>) -> bool {
    forall|i: int| 0 <= i < s.len() ==> is_digit(#[trigger] s[i])
}

/// The number that a string of decimal digits denotes; the empty string
/// denotes zero.
pub open spec fn digits_value(s: Seq<char>) -> nat
    decreases s.len(),
{
    if s.len() == 0 {
        0
    } else {
        digits_value(s.drop_last()) * 10 + digit_value(s.last())
    }
}

/// The decimal digits of `n`, without leading zeros; zero is `"0"`.
pub open spec fn decimal_digits(n: nat) -> Seq<char>
    decreases n,
{
    if n < 10 {
        seq![digit_char(n)]
    } else {
        decimal_digits(n / 10).push(digit_char(n % 10))
    }
}

/// The text of a price: whole part, dot, two fraction digits.
pub open spec fn price_chars(cents: u64) -> Seq<char> {
    decimal_digits(cents as nat / 100) + seq![
        '.',
        digit_char(cents as nat / 10 % 10),
        digit_char(cents as nat % 10),
    ]
}

/// `s` without its leading `+`, if it has one.
pub open spec fn unsigned_part(s: Seq<char>) -> Seq<char> {
    if s.len() > 0 && s[0] == '+' {
        s.skip(1)
    } else {
        s
    }
}

/// `i` is where the first dot of `s` stands, or the length of `s` if it has
/// none.
pub open spec fn is_dot_index(s: Seq<char>, i: int) -> bool {
    &&& 0 <= i <= s.len()
    &&& forall|j: int| 0 <= j < i ==> #[trigger] s[j] != '.'
    &&& i < s.len() ==> s[i] == '.'
}

/// Where the first dot of `s` stands, or the length of `s` if it has none.
pub open spec fn dot_index(s: Seq<char>) -> int {
    choose|i: int| is_dot_index(s, i)
}

/// What stands before the first dot.
pub open spec fn whole_part(s: Seq<char>) -> Seq<char> {
    s.take(dot_index(s))
}

/// What stands after the first dot; empty where there is no dot.
pub open spec fn fraction_part(s: Seq<char>) -> Seq<char> {
    if dot_index(s) < s.len() {
        s.skip(dot_index(s) + 1)
    } else {
        Seq::empty()
    }
}

/// `s` is an amount: an optional `+`, then digits with at most one dot among
/// them, and at least one digit.
pub open spec fn is_amount(s: Seq<char>) -> bool {
    let body = unsigned_part(s);
    &&& all_digits(whole_part(body))
    &&& all_digits(fraction_part(body))
    &&& whole_part(body).len() + fraction_part(body).len() > 0
}

/// The hundredths that fraction digits `f` come to: the first two digits
/// count, the third rounds half up, the rest is dropped.
pub open spec fn fraction_hundredths(f: Seq<char>) -> nat {
    (if f.len() > 0 {
        digit_value(f[0]) * 10
    } else {
        0
    }) + (if f.len() > 1 {
        digit_value(f[1])
    } else {
        0
    }) + (if f.len() > 2 && digit_value(f[2]) >= 5 {
        1nat
    } else {
        0
    })
}

/// The hundredths that the amount `s` comes to.
pub open spec fn amount_hundredths(s: Seq<char>) -> nat {
    let body = unsigned_part(s);
    digits_value(whole_part(body)) * 100 + fraction_hundredths(fraction_part(body))
}

/// The price that `s` denotes: its hundredths where `s` is an amount that
/// fits in a `u64`, nothing otherwise.
pub open spec fn parse_price_spec(s: Seq<char>) -> Option<u64> {
    if is_amount(s) && amount_hundredths(s) <= u64::MAX {
        Some(amount_hundredths(s) as u64)
    } else {
        None
    }
}

/// The price of a stored cell: what the cell denotes, and zero where it
/// denotes nothing.
pub open spec fn lenient_price_spec(s: Seq<char>) -> u64 {
    match parse_price_spec(s) {
        Some(cents) => cents,
        None => 0,
    }
}

/// `s` with every comma turned into a dot.
pub open spec fn with_dot_separator(s: Seq<char>) -> Seq<char> {
    s.map_values(|c: char| if c == ',' { '.' } else { c })
}

/// The first dot of `s` is found by any index that meets `is_dot_index`.
pub proof fn lemma_dot_index(s: Seq<char>, i: int)
    requires
        is_dot_index(s, i),
    ensures
        dot_index(s) == i,
{
    let k = dot_index(s);
    assert(is_dot_index(s, k));
    if k < i {
        assert(s[k] != '.');
    }
    if i < k {
        assert(s[i] != '.');
    }
}

/// Every string has a first dot or none: `dot_index` meets `is_dot_index`.
pub proof fn lemma_dot_index_exists(s: Seq<char>)
    ensures
        is_dot_index(s, dot_index(s)),
    decreases s.len(),
{
    if s.len() == 0 {
        assert(is_dot_index(s, 0));
    } else {
        let t = s.drop_last();
        lemma_dot_index_exists(t);
        let k = dot_index(t);
        assert forall|j: int| 0 <= j < k implies #[trigger] s[j] != '.' by {
            assert(t[j] != '.');
        }
        if k < t.len() {
            assert(s[k] == t[k]);
            assert(is_dot_index(s, k));
        } else if s.last() == '.' {
            assert(is_dot_index(s, k));
        } else {
            assert(is_dot_index(s, k + 1));
        }
    }
}

/// One more digit at the end multiplies by ten and adds the digit.
pub proof fn lemma_digits_value_push(s: Seq<char>, c: char)
    ensures
        digits_value(s.push(c)) == digits_value(s) * 10 + digit_value(c),
{
    assert(s.push(c).drop_last() =~= s);
}

/// A prefix of a digit string denotes no more than the whole string.
pub proof fn lemma_digits_value_prefix(s: Seq<char>, k: int)
    requires
        0 <= k <= s.len(),
    ensures
        digits_value(s.take(k)) <= digits_value(s),
    decreases s.len(),
{
    if k == s.len() {
        assert(s.take(k) =~= s);
    } else {
        lemma_digits_value_prefix(s.drop_last(), k);
        assert(s.drop_last().take(k) =~= s.take(k));
    }
}

/// The decimal digits of a number are digits, begin with a digit, and denote
/// that number.
pub proof fn lemma_decimal_digits(n: nat)
    ensures
        decimal_digits(n).len() > 0,
        all_digits(decimal_digits(n)),
        digits_value(decimal_digits(n)) == n,
    decreases n,
{
    if n < 10 {
        lemma_digits_value_push(Seq::empty(), digit_char(n));
        assert(Seq::<char>::empty().push(digit_char(n)) =~= decimal_digits(n));
    } else {
        lemma_decimal_digits(n / 10);
        lemma_digits_value_push(decimal_digits(n / 10), digit_char(n % 10));
    }
}

/// Reading the text of a price gives the price back.
pub proof fn lemma_price_round_trip(cents: u64)
    ensures
        parse_price_spec(price_chars(cents)) == Some(cents),
        lenient_price_spec(price_chars(cents)) == cents,
{
    let whole = decimal_digits(cents as nat / 100);
    let tens = digit_char(cents as nat / 10 % 10);
    let units = digit_char(cents as nat % 10);
    let s = price_chars(cents);
    lemma_decimal_digits(cents as nat / 100);
    assert(s.len() == whole.len() + 3);
    assert forall|j: int| 0 <= j < whole.len() implies s[j] == whole[j] by {}
    assert(is_digit(whole[0]));
    assert(unsigned_part(s) == s);
    assert(s[whole.len() as int] == '.');
    assert(is_dot_index(s, whole.len() as int)) by {
        assert forall|j: int| 0 <= j < whole.len() implies #[trigger] s[j] != '.' by {
            assert(is_digit(whole[j]));
        }
    }
    lemma_dot_index(s, whole.len() as int);
    assert(whole_part(s) =~= whole);
    assert(fraction_part(s) =~= seq![tens, units]);
}

/// The one-character text of the digit `d`.
fn digit_text(d: u64) -> (s: &'static str)
    requires
        d < 10,
    ensures
        s@ == seq![digit_char(d as nat)],
{
    proof {
        reveal_strlit("0");
        reveal_strlit("1");
        reveal_strlit("2");
        reveal_strlit("3");
        reveal_strlit("4");
        reveal_strlit("5");
        reveal_strlit("6");
        reveal_strlit("7");
        reveal_strlit("8");
        reveal_strlit("9");
    }
    let s = if d == 0 {
        "0"
    } else if d == 1 {
        "1"
    } else if d == 2 {
        "2"
    } else if d == 3 {
        "3"
    } else if d == 4 {
        "4"
    } else if d == 5 {
        "5"
    } else if d == 6 {
        "6"
    } else if d == 7 {
        "7"
    } else if d == 8 {
        "8"
    } else {
        "9"
    };
    assert(s@ =~= seq![digit_char(d as nat)]);
    s
}

/// Appends the decimal digits of `n` to `out`.
pub fn push_decimal(out: &mut String, n: u64)
    ensures
        final(out)@ == old(out)@ + decimal_digits(n as nat),
    decreases n,
{
    if n >= 10 {
        push_decimal(out, n / 10);
    }
    out.append(digit_text(n % 10));
    assert(out@ =~= old(out)@ + decimal_digits(n as nat));
}

/// The text of a price, with exactly two fraction digits.
pub fn price_text(cents: u64) -> (text: String)
    ensures
        text@ == price_chars(cents),
{
    proof {
        reveal_strlit(".");
    }
    let mut text = String::new();
    push_decimal(&mut text, cents / 100);
    text.append(".");
    text.append(digit_text(cents / 10 % 10));
    text.append(digit_text(cents % 10));
    assert(text@ =~= price_chars(cents));
    text
}

/// The end of the run of digits that begins at `from`.
fn scan_digits(chars: &Vec<char>, from: usize) -> (end: usize)
    requires
        from <= chars.len(),
    ensures
        from <= end <= chars.len(),
        forall|j: int| from <= j < end ==> is_digit(#[trigger] chars@[j]),
        end < chars.len() ==> !is_digit(chars@[end as int]),
{
    let mut end = from;
    while end < chars.len() && chars[end] >= '0' && chars[end] <= '9'
        invariant
            from <= end <= chars.len(),
            forall|j: int| from <= j < end ==> is_digit(#[trigger] chars@[j]),
        decreases chars.len() - end,
    {
        end += 1;
    }
    end
}

/// The number that the digits from `from` up to `to` denote, if it fits.
fn decimal_value(chars: &Vec<char>, from: usize, to: usize) -> (value: Option<u64>)
    requires
        from <= to <= chars.len(),
        forall|j: int| from <= j < to ==> is_digit(#[trigger] chars@[j]),
    ensures
        match value {
            Some(v) => v == digits_value(chars@.subrange(from as int, to as int)),
            None => digits_value(chars@.subrange(from as int, to as int)) > u64::MAX,
        },
{
    let ghost digits = chars@.subrange(from as int, to as int);
    let mut value: u64 = 0;
    let mut i = from;
    while i < to
        invariant
            from <= i <= to <= chars.len(),
            digits == chars@.subrange(from as int, to as int),
            forall|j: int| from <= j < to ==> is_digit(#[trigger] chars@[j]),
            value == digits_value(digits.take(i - from)),
        decreases to - i,
    {
        let c = chars[i];
        let d = (c as u8 - 48u8) as u64;
        proof {
            assert(is_digit(chars@[i as int]));
            assert(digits.take(i - from + 1) =~= digits.take(i - from).push(c));
            lemma_digits_value_push(digits.take(i - from), c);
            lemma_digits_value_prefix(digits, i - from + 1);
        }
        let next = match value.checked_mul(10) {
            Some(tenfold) => tenfold.checked_add(d),
            None => None,
        };
        match next {
            Some(v) => {
                value = v;
            },
            None => {
                return None;
            },
        }
        i += 1;
    }
    assert(digits.take(to - from) =~= digits);
    Some(value)
}

/// The hundredths of the fraction digits that begin at `from`.
fn hundredths_from(chars: &Vec<char>, from: usize) -> (value: u64)
    requires
        from <= chars.len(),
        forall|j: int| from <= j < chars.len() ==> is_digit(#[trigger] chars@[j]),
    ensures
        value == fraction_hundredths(chars@.skip(from as int)),
        value <= 100,
{
    let n = chars.len();
    let mut value: u64 = 0;
    if n - from > 0 {
        assert(is_digit(chars@[from as int]));
        value = value + (chars[from] as u8 - 48u8) as u64 * 10;
    }
    if n - from > 1 {
        assert(is_digit(chars@[from + 1]));
        value = value + (chars[from + 1] as u8 - 48u8) as u64;
    }
    if n - from > 2 {
        assert(is_digit(chars@[from + 2]));
        if chars[from + 2] >= '5' {
            value = value + 1;
        }
    }
    value
}

/// The price that `chars` denotes.
fn parse_amount(chars: &Vec<char>) -> (price: Option<u64>)
    ensures
        price == parse_price_spec(chars@),
{
    let n = chars.len();
    let start: usize = if n > 0 && chars[0] == '+' {
        1
    } else {
        0
    };
    let ghost body = unsigned_part(chars@);
    assert(body =~= chars@.skip(start as int));
    let dot = scan_digits(chars, start);
    proof {
        if dot == n || chars@[dot as int] == '.' {
            assert(is_dot_index(body, dot - start)) by {
                assert forall|j: int| 0 <= j < dot - start implies #[trigger] body[j] != '.' by {
                    assert(is_digit(chars@[start + j]));
                }
            }
            lemma_dot_index(body, dot - start);
            assert(whole_part(body) =~= chars@.subrange(start as int, dot as int));
        } else {
            // A character that is neither a digit nor the first dot stands in
            // the whole part.
            let k = dot_index(body);
            lemma_dot_index_exists(body);
            if k < dot - start {
                assert(is_digit(chars@[start + k]));
            }
            assert(whole_part(body)[dot - start] == chars@[dot as int]);
        }
    }
    if dot < n && chars[dot] != '.' {
        return None;
    }
    let frac_start: usize = if dot < n {
        dot + 1
    } else {
        n
    };
    assert(fraction_part(body) =~= chars@.skip(frac_start as int));
    let end = scan_digits(chars, frac_start);
    if end < n {
        assert(fraction_part(body)[end - frac_start] == chars@[end as int]);
        return None;
    }
    if dot - start + (n - frac_start) == 0 {
        return None;
    }
    assert(is_amount(chars@));
    let fraction = hundredths_from(chars, frac_start);
    let whole = decimal_value(chars, start, dot);
    match whole {
        Some(w) => match w.checked_mul(100) {
            Some(scaled) => scaled.checked_add(fraction),
            None => None,
        },
        None => None,
    }
}

/// The price that `text` denotes, if it denotes one.
pub fn parse_price(text: &str) -> (price: Option<u64>)
    ensures
        price == parse_price_spec(text@),
{
    let chars = chars_of(text);
    parse_amount(&chars)
}

/// The price of a stored cell: a cell that denotes no price counts as zero.
pub fn lenient_price(cell: &str) -> (price: u64)
    ensures
        price == lenient_price_spec(cell@),
{
    match parse_price(cell) {
        Some(cents) => cents,
        None => 0,
    }
}

/// The price that a typed text denotes. A comma may stand for the decimal
/// dot; a text that is no amount, or whose amount is too large to hold, is an
/// error.
pub fn parse_user_price(text: &str) -> (price: Result<u64, LedgerError>)
    ensures
        price == match parse_price_spec(with_dot_separator(text@)) {
            Some(cents) => Ok::<u64, LedgerError>(cents),
            None => Err(LedgerError::InvalidPrice),
        },
{
    let mut chars = chars_of(text);
    let mut i: usize = 0;
    while i < chars.len()
        invariant
            i <= chars.len(),
            chars.len() == text@.len(),
            forall|j: int| 0 <= j < i ==> #[trigger] chars@[j] == with_dot_separator(text@)[j],
            forall|j: int| i <= j < chars.len() ==> #[trigger] chars@[j] == text@[j],
        decreases chars.len() - i,
    {
        if chars[i] == ',' {
            chars.set(i, '.');
        }
        i += 1;
    }
    assert(chars@ =~= with_dot_separator(text@));
    match parse_amount(&chars) {
        Some(cents) => Ok(cents),
        None => Err(LedgerError::InvalidPrice),
    }
}

} // verus!
