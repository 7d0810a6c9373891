//! Numbers in text: signed decimal numerals, the numbers they denote, and
//! the numeral of a number.

use vstd::prelude::*;
use vstd::string::StringExecFns;
use vstd::utf8::*;

verus! {

/// A decimal digit.
pub open spec fn is_digit(c: char) -> bool {
    '0' <= c <= '9'
}

/// The number a decimal digit stands for.
pub open spec fn digit_value(c: char) -> int {
    c as int - '0' as int
}

/// Whether every character of `s` is a decimal digit.
pub open spec fn all_digits(s: Seq<char>) -> bool {
    forall|i: int| 0 <= i < s.len() ==> is_digit(#[trigger] s[i])
}

/// The number that a run of decimal digits denotes, most significant digit
/// first. The empty run denotes 0.
pub open spec fn digits_value(s: Seq<char>) -> int
    decreases s.len(),
{
    if s.len() == 0 {
        0
    } else {
        digits_value(s.drop_last()) * 10 + digit_value(s.last())
    }
}

/// The integer that a numeral denotes: an optional `+` or `-`, then one or
/// more decimal digits and nothing else. Any other text denotes nothing.
pub open spec fn numeral_value(s: Seq<char>) -> Option<int> {
    if s.len() > 0 && s[0] == '-' {
        if s.len() > 1 && all_digits(s.skip(1)) {
            Some(-digits_value(s.skip(1)))
        } else {
            None
        }
    } else if s.len() > 0 && s[0] == '+' {
        if s.len() > 1 && all_digits(s.skip(1)) {
            Some(digits_value(s.skip(1)))
        } else {
            None
        }
    } else if s.len() > 0 && all_digits(s) {
        Some(digits_value(s))
    } else {
        None
    }
}

/// The value of a numeral that fits in an `i64`.
pub open spec fn i64_value(s: Seq<char>) -> Option<i64> {
    match numeral_value(s) {
        Some(v) => if i64::MIN <= v <= i64::MAX {
            Some(v as i64)
        } else {
            None
        },
        None => None,
    }
}

/// The value of a numeral that fits in an `i32`.
pub open spec fn i32_value(s: Seq<char>) -> Option<i32> {
    match numeral_value(s) {
        Some(v) => if i32::MIN <= v <= i32::MAX {
            Some(v as i32)
        } else {
            None
        },
        None => None,
    }
}

/// A run of digits denotes no less than any run it starts with.
pub proof fn lemma_digits_value_grows(s: Seq<char>, k: int)
    requires
        all_digits(s),
        0 <= k <= s.len(),
    ensures
        0 <= digits_value(s.take(k)) <= digits_value(s),
    decreases s.len() - k,
{
    if k == s.len() {
        assert(s.take(k) =~= s);
        lemma_digits_value_nonnegative(s);
    } else {
        lemma_digits_value_grows(s.drop_last(), k);
        assert(s.drop_last().take(k) =~= s.take(k));
        assert(is_digit(s[s.len() - 1]));
    }
}

/// A run of digits denotes a natural number.
pub proof fn lemma_digits_value_nonnegative(s: Seq<char>)
    requires
        all_digits(s),
    ensures
        0 <= digits_value(s),
    decreases s.len(),
{
    if s.len() > 0 {
        lemma_digits_value_nonnegative(s.drop_last());
        assert(is_digit(s[s.len() - 1]));
    }
}

/// The magnitude that the digits of `bytes` from `start` on denote, as far
/// as it does not exceed `limit`; `None` where a character is no digit, the
/// run is empty or the magnitude is larger.
fn magnitude(bytes: &[u8], start: usize, limit: u64, Ghost(s): Ghost<Seq<char>>) -> (m: Option<u64>)
    requires
        start <= bytes.len(),
        bytes.len() == s.len(),
        forall|i: int| 0 <= i < s.len() ==> s[i] as int == #[trigger] bytes@[i] as int,
        9 <= limit <= 0x8000_0000_0000_0000,
    ensures
        m == if start < s.len() && all_digits(s.skip(start as int)) && digits_value(
            s.skip(start as int),
        ) <= limit {
            Some(digits_value(s.skip(start as int)) as u64)
        } else {
            None
        },
{
    let ghost body = s.skip(start as int);
    if start == bytes.len() {
        return None;
    }
    let mut acc: u64 = 0;
    let mut i: usize = start;
    while i < bytes.len()
        invariant
            start <= i <= bytes.len(),
            bytes.len() == s.len(),
            body == s.skip(start as int),
            forall|j: int| 0 <= j < s.len() ==> s[j] as int == #[trigger] bytes@[j] as int,
            all_digits(body.take(i - start)),
            acc == digits_value(body.take(i - start)),
            acc <= limit,
            9 <= limit <= 0x8000_0000_0000_0000,
        decreases bytes.len() - i,
    {
        let b: u8 = bytes[i];
        let ghost c = s[i as int];
        assert(c == body[i - start]);
        assert(c as int == b as int);
        if b < 48 || b > 57 {
            assert(!is_digit(c));
            return None;
        }
        assert(is_digit(c));
        let d: u64 = (b - 48) as u64;
        assert(d == digit_value(c));
        let ghost longer = body.take(i - start + 1);
        assert(longer.drop_last() =~= body.take(i - start));
        assert(longer.last() == c);
        assert(all_digits(longer)) by {
            assert forall|j: int| 0 <= j < longer.len() implies is_digit(#[trigger] longer[j]) by {
                if j < i - start {
                    assert(body.take(i - start)[j] == longer[j]);
                }
            }
        }
        if acc > (limit - d) / 10 {
            proof {
                assert(digits_value(longer) == acc * 10 + d);
                assert(digits_value(longer) > limit);
                if all_digits(body) {
                    lemma_digits_value_grows(body, i - start + 1);
                }
            }
            return None;
        }
        acc = acc * 10 + d;
        i += 1;
    }
    assert(body.take(i - start) =~= body);
    Some(acc)
}

/// The characters of an ASCII text, byte for byte.
proof fn lemma_ascii_bytes(s: Seq<char>)
    requires
        is_ascii_chars(s),
    ensures
        encode_utf8(s).len() == s.len(),
        forall|i: int| 0 <= i < s.len() ==> s[i] as int == #[trigger] encode_utf8(s)[i] as int,
{
    is_ascii_chars_encode_utf8(s);
    is_ascii_chars_nat_bound(s);
    assert forall|i: int| 0 <= i < s.len() implies s[i] as int == #[trigger] encode_utf8(s)[i] as int by {
        assert((s[i] as nat) < 128);
        assert(s[i] as u8 == encode_utf8(s)[i]);
    }
}

/// A numeral holds ASCII characters only.
proof fn lemma_numeral_is_ascii(s: Seq<char>)
    requires
        numeral_value(s) is Some,
    ensures
        is_ascii_chars(s),
{
    assert forall|i: int| 0 <= i < s.len() implies '\0' <= #[trigger] s[i] <= '\u{7f}' by {
        if s[0] == '-' || s[0] == '+' {
            if i > 0 {
                assert(is_digit(s.skip(1)[i - 1]));
            }
        } else {
            assert(is_digit(s[i]));
        }
    }
}

/// The number of the given sign and magnitude.
pub open spec fn signed(negative: bool, magnitude: int) -> int {
    if negative {
        -magnitude
    } else {
        magnitude
    }
}

/// Reads a signed decimal numeral, as far as the number it denotes lies
/// between `-negative_limit` and `limit`. The result is whether it starts
/// with `-`, and its magnitude.
fn read_numeral(s: &str, limit: u64, negative_limit: u64) -> (r: Option<(bool, u64)>)
    requires
        9 <= limit <= 0x8000_0000_0000_0000,
        9 <= negative_limit <= 0x8000_0000_0000_0000,
    ensures
        match r {
            Some((negative, m)) => negative == (s@[0] == '-') && numeral_value(s@) == Some(
                signed(negative, m as int),
            ) && -negative_limit <= signed(negative, m as int) <= limit,
            None => numeral_value(s@) matches Some(v) ==> !(-negative_limit <= v <= limit),
        },
{
    if !s.is_ascii() {
        proof {
            if numeral_value(s@) is Some {
                lemma_numeral_is_ascii(s@);
            }
        }
        return None;
    }
    let bytes = s.as_bytes();
    proof {
        lemma_ascii_bytes(s@);
    }
    if bytes.len() == 0 {
        return None;
    }
    let first: u8 = bytes[0];
    assert(first as int == s@[0] as int);
    proof {
        assert(s@.skip(0) =~= s@);
        if s@.len() > 1 && all_digits(s@.skip(1)) {
            lemma_digits_value_nonnegative(s@.skip(1));
        }
        if all_digits(s@) {
            lemma_digits_value_nonnegative(s@);
        }
    }
    if first == 45 {
        assert(s@[0] == '-');
        match magnitude(bytes, 1, negative_limit, Ghost(s@)) {
            Some(m) => Some((true, m)),
            None => None,
        }
    } else if first == 43 {
        assert(s@[0] == '+');
        match magnitude(bytes, 1, limit, Ghost(s@)) {
            Some(m) => Some((false, m)),
            None => None,
        }
    } else {
        assert(s@[0] != '-' && s@[0] != '+');
        match magnitude(bytes, 0, limit, Ghost(s@)) {
            Some(m) => Some((false, m)),
            None => None,
        }
    }
}

/// Reads an `i64` from its decimal numeral.
pub fn parse_i64(s: &str) -> (value: Option<i64>)
    ensures
        value == i64_value(s@),
{
    match read_numeral(s, 0x7fff_ffff_ffff_ffff, 0x8000_0000_0000_0000) {
        Some((negative, m)) => {
            if negative {
                if m == 0x8000_0000_0000_0000 {
                    Some(i64::MIN)
                } else {
                    Some(-(m as i64))
                }
            } else {
                Some(m as i64)
            }
        },
        None => None,
    }
}

/// Reads an `i32` from its decimal numeral.
pub fn parse_i32(s: &str) -> (value: Option<i32>)
    ensures
        value == i32_value(s@),
{
    match read_numeral(s, 0x7fff_ffff, 0x8000_0000) {
        Some((negative, m)) => {
            if negative {
                if m == 0x8000_0000 {
                    Some(i32::MIN)
                } else {
                    Some(-(m as i32))
                }
            } else {
                Some(m as i32)
            }
        },
        None => None,
    }
}

/// The character that stands for a digit's number.
pub open spec fn digit_char(d: int) -> char {
    if d == 0 {
        '0'
    } else if d == 1 {
        '1'
    } else if d == 2 {
        '2'
    } else if d == 3 {
        '3'
    } else if d == 4 {
        '4'
    } else if d == 5 {
        '5'
    } else if d == 6 {
        '6'
    } else if d == 7 {
        '7'
    } else if d == 8 {
        '8'
    } else {
        '9'
    }
}

/// The decimal numeral of a natural number: its digits, most significant
/// first, without a sign and without needless zeros.
pub open spec fn decimal(n: nat) -> Seq<char>
    decreases n,
{
    if n < 10 {
        seq![digit_char(n as int)]
    } else {
        decimal(n / 10).push(digit_char((n % 10) as int))
    }
}

/// The numeral of one digit.
fn digit_text(d: usize) -> (text: &'static str)
    requires
        d < 10,
    ensures
        text@ == seq![digit_char(d as int)],
{
    proof {
        reveal_strlit("0");
        reveal_strlit("1");
        reveal_strlit("2");
        reveal_strlit("3");
        reveal_strlit("4");
        reveal_strlit("5");
        reveal_strlit("6");
        reveal_strlit("7");
        reveal_strlit("8");
        reveal_strlit("9");
    }
    let text = if d == 0 {
        "0"
    } else if d == 1 {
        "1"
    } else if d == 2 {
        "2"
    } else if d == 3 {
        "3"
    } else if d == 4 {
        "4"
    } else if d == 5 {
        "5"
    } else if d == 6 {
        "6"
    } else if d == 7 {
        "7"
    } else if d == 8 {
        "8"
    } else {
        "9"
    };
    assert(text@ =~= seq![digit_char(d as int)]);
    text
}

/// Writes a number as its decimal numeral.
pub fn decimal_text(n: usize) -> (text: String)
    ensures
        text@ == decimal(n as nat),
    decreases n,
{
    if n < 10 {
        digit_text(n).to_owned()
    } else {
        let mut text = decimal_text(n / 10);
        text.append(digit_text(n % 10));
        assert(text@ =~= decimal(n as nat));
        text
    }
}

/// The decimal numeral of a number is read back as that number.
pub proof fn lemma_decimal_reads_back(n: nat)
    ensures
        all_digits(decimal(n)),
        decimal(n).len() > 0,
        digits_value(decimal(n)) == n,
        numeral_value(decimal(n)) == Some(n as int),
    decreases n,
{
    if n < 10 {
        let s = decimal(n);
        assert(s.len() == 1);
        assert(s[0] == digit_char(n as int));
        assert(s.drop_last() =~= Seq::<char>::empty());
        assert(digits_value(s.drop_last()) == 0);
        assert(digit_value(s.last()) == n);
    } else {
        lemma_decimal_reads_back(n / 10);
        let front = decimal(n / 10);
        let s = decimal(n);
        assert(s.drop_last() =~= front);
        assert(s.last() == digit_char((n % 10) as int));
        assert(digit_value(s.last()) == n % 10);
        assert forall|i: int| 0 <= i < s.len() implies is_digit(#[trigger] s[i]) by {
            if i < front.len() {
                assert(s[i] == front[i]);
            }
        }
        assert(s[0] == front[0]);
    }
    assert(is_digit(decimal(n)[0]));
}

} // verus!
