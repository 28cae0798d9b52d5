//! Numbers as text.

use vstd::prelude::*;

verus! {

/// The character of one decimal or lower-case hexadecimal digit.
pub open spec fn digit_char(d: nat) -> char {
    if d < 10 {
        (48 + d) as char
    } else {
        (87 + d) as char
    }
}

/// The decimal numeral of `n`, without leading zeros.
pub open spec fn decimal(n: nat) -> Seq<char>
    decreases n,
{
    if n < 10 {
        seq![digit_char(n)]
    } else {
        decimal(n / 10).push(digit_char(n % 10))
    }
}

/// The decimal numeral of a signed number.
pub open spec fn signed_decimal(n: int) -> Seq<char> {
    if n < 0 {
        seq!['-'] + decimal((-n) as nat)
    } else {
        decimal(n as nat)
    }
}

/// The last `width` hexadecimal digits of `n`, most significant first.
pub open spec fn hex_digits(n: nat, width: nat) -> Seq<char>
    decreases width,
{
    if width == 0 {
        Seq::empty()
    } else {
        hex_digits(n / 16, (width - 1) as nat).push(digit_char(n % 16))
    }
}

fn digit_text(d: u8) -> (text: &'static str)
    requires
        d < 16,
    ensures
        text@ == seq![digit_char(d as nat)],
{
    proof {
        reveal_strlit("0");
        reveal_strlit("1");
        reveal_strlit("2");
        reveal_strlit("3");
        reveal_strlit("4");
        reveal_strlit("5");
        reveal_strlit("6");
        reveal_strlit("7");
        reveal_strlit("8");
        reveal_strlit("9");
        reveal_strlit("a");
        reveal_strlit("b");
        reveal_strlit("c");
        reveal_strlit("d");
        reveal_strlit("e");
        reveal_strlit("f");
    }
    match d {
        0 => "0",
        1 => "1",
        2 => "2",
        3 => "3",
        4 => "4",
        5 => "5",
        6 => "6",
        7 => "7",
        8 => "8",
        9 => "9",
        10 => "a",
        11 => "b",
        12 => "c",
        13 => "d",
        14 => "e",
        _ => "f",
    }
}

/// Writes `n` in decimal.
pub fn decimal_text(n: u64) -> (text: String)
    ensures
        text@ == decimal(n as nat),
    decreases n,
{
    if n < 10 {
        digit_text(n as u8).to_string()
    } else {
        let mut text = decimal_text(n / 10);
        text.append(digit_text((n % 10) as u8));
        text
    }
}

/// Writes `n` in decimal, with a minus sign where it is negative.
pub fn signed_decimal_text(n: i32) -> (text: String)
    ensures
        text@ == signed_decimal(n as int),
{
    if n < 0 {
        let magnitude: i64 = -(n as i64);
        proof {
            reveal_strlit("-");
        }
        let mut text = "-".to_string();
        text.append(decimal_text(magnitude as u64).as_str());
        text
    } else {
        decimal_text(n as u64)
    }
}

fn hex_text(n: u64, width: u8) -> (text: String)
    ensures
        text@ == hex_digits(n as nat, width as nat),
    decreases width,
{
    if width == 0 {
        String::new()
    } else {
        let mut text = hex_text(n / 16, width - 1);
        text.append(digit_text((n % 16) as u8));
        text
    }
}

/// Writes `n` as sixteen lower-case hexadecimal digits.
pub fn hex16_text(n: u64) -> (text: String)
    ensures
        text@ == hex_digits(n as nat, 16),
{
    hex_text(n, 16)
}

/// Whether two texts are the same.
pub fn same_text(a: &str, b: &str) -> (same: bool)
    ensures
        same == (a@ == b@),
{
    a.to_owned() == b.to_owned()
}

/// Joins two texts.
pub fn join(a: &str, b: &str) -> (text: String)
    ensures
        text@ == a@ + b@,
{
    a.to_owned().concat(b)
}

/// Whether a character is a decimal digit.
pub open spec fn is_digit(c: char) -> bool {
    '0' <= c && c <= '9'
}

/// The number that a run of decimal digits stands for.
pub open spec fn digits_value(s: Seq<char>) -> nat
    decreases s.len(),
{
    if s.len() == 0 {
        0
    } else {
        digits_value(s.drop_last()) * 10 + (s.last() as nat - 48) as nat
    }
}

/// Whether a text consists of decimal digits.
pub open spec fn all_digits(s: Seq<char>) -> bool {
    forall|i: int| 0 <= i < s.len() ==> is_digit(#[trigger] s[i])
}

/// A text without the plus sign that it may start with.
pub open spec fn without_plus(s: Seq<char>) -> Seq<char> {
    if s.len() > 0 && s[0] == '+' {
        s.skip(1)
    } else {
        s
    }
}

/// The 64-bit number that a text stands for: decimal digits, at least one,
/// after an optional plus sign.
pub open spec fn number_in(s: Seq<char>) -> Option<u64> {
    let digits = without_plus(s);
    if digits.len() > 0 && all_digits(digits) && digits_value(digits) <= u64::MAX {
        Some(digits_value(digits) as u64)
    } else {
        None
    }
}

proof fn lemma_digits_value_grows(s: Seq<char>, n: int)
    requires
        0 <= n <= s.len(),
    ensures
        digits_value(s.take(n)) <= digits_value(s),
    decreases s.len() - n,
{
    if n < s.len() {
        assert(s.take(n + 1).drop_last() =~= s.take(n));
        lemma_digits_value_grows(s, n + 1);
    } else {
        assert(s.take(n) =~= s);
    }
}

/// Reads a 64-bit number.
pub fn parse_number(s: &str) -> (number: Option<u64>)
    ensures
        number == number_in(s@),
{
    let len: usize = s.unicode_len();
    let start: usize = if len > 0 && s.get_char(0) == '+' {
        1
    } else {
        0
    };
    let ghost digits = without_plus(s@);
    assert(digits =~= s@.skip(start as int));
    if start == len {
        return None;
    }
    let mut value: u64 = 0;
    let mut i: usize = start;
    while i < len
        invariant
            start <= i <= len == s@.len(),
            digits == s@.skip(start as int),
            digits == without_plus(s@),
            value == digits_value(digits.take(i - start)),
            forall|k: int| 0 <= k < i - start ==> is_digit(#[trigger] digits[k]),
            start < len,
        decreases len - i,
    {
        let c: char = s.get_char(i);
        assert(digits[i - start] == c);
        if !('0' <= c && c <= '9') {
            return None;
        }
        let digit: u64 = c as u64 - 48;
        assert(digits.take(i + 1 - start).drop_last() =~= digits.take(i - start));
        proof {
            lemma_digits_value_grows(digits, i + 1 - start);
        }
        if value > (u64::MAX - digit) / 10 {
            assert(value * 10 + digit > u64::MAX);
            return None;
        }
        value = value * 10 + digit;
        i += 1;
    }
    assert(digits.take(len - start) =~= digits);
    Some(value)
}

proof fn lemma_decimal_digits(n: nat)
    ensures
        decimal(n).len() > 0,
        all_digits(decimal(n)),
        digits_value(decimal(n)) == n,
    decreases n,
{
    if n >= 10 {
        lemma_decimal_digits(n / 10);
        assert(decimal(n).drop_last() =~= decimal(n / 10));
    } else {
        assert(decimal(n).drop_last() =~= Seq::<char>::empty());
        assert(digits_value(Seq::<char>::empty()) == 0);
    }
}

/// A number written in decimal reads back as the same number.
pub proof fn law_decimal_reads_back(n: u64)
    ensures
        number_in(decimal(n as nat)) == Some(n),
{
    lemma_decimal_digits(n as nat);
    assert(is_digit(decimal(n as nat)[0]));
    assert(without_plus(decimal(n as nat)) == decimal(n as nat));
}

/// Different numbers are written differently.
pub proof fn law_decimal_is_injective(a: nat, b: nat)
    requires
        decimal(a) == decimal(b),
    ensures
        a == b,
{
    lemma_decimal_digits(a);
    lemma_decimal_digits(b);
}

/// The number of numbers that so many hexadecimal digits can tell apart.
pub open spec fn hex_range(width: nat) -> nat
    decreases width,
{
    if width == 0 {
        1
    } else {
        16 * hex_range((width - 1) as nat)
    }
}

/// Different numbers within the range of the width are written differently.
pub proof fn law_hex_is_injective(a: nat, b: nat, width: nat)
    requires
        a < hex_range(width),
        b < hex_range(width),
        hex_digits(a, width) == hex_digits(b, width),
    ensures
        a == b,
    decreases width,
{
    if width > 0 {
        let x = hex_digits(a / 16, (width - 1) as nat);
        let y = hex_digits(b / 16, (width - 1) as nat);
        assert(x.push(digit_char(a % 16)).drop_last() =~= x);
        assert(y.push(digit_char(b % 16)).drop_last() =~= y);
        assert(x.push(digit_char(a % 16)).last() == y.push(digit_char(b % 16)).last());
        law_hex_is_injective(a / 16, b / 16, (width - 1) as nat);
    }
}

/// A decimal numeral consists of digits and has no leading zero, but for the
/// numeral of zero itself.
pub proof fn law_decimal_has_no_leading_zero(n: nat)
    ensures
        decimal(n).len() > 0,
        forall|i: int|
            0 <= i < decimal(n).len() ==> '0' <= #[trigger] decimal(n)[i] && decimal(n)[i] <= '9',
        n == 0 ==> decimal(n) == seq!['0'],
        n > 0 ==> decimal(n)[0] != '0',
    decreases n,
{
    lemma_decimal_digits(n);
    assert(all_digits(decimal(n)));
    assert forall|i: int| 0 <= i < decimal(n).len() implies '0' <= #[trigger] decimal(n)[i]
        && decimal(n)[i] <= '9' by {
        assert(is_digit(decimal(n)[i]));
    }
    if n >= 10 {
        law_decimal_has_no_leading_zero(n / 10);
    }
}

/// One more digit makes a numeral ten times as large, and the digit more.
pub proof fn law_digit_adds_to_ten_times(n: nat, d: nat)
    requires
        n > 0,
        d < 10,
    ensures
        decimal(10 * n + d) == decimal(n) + decimal(d),
        decimal(d).len() == 1,
        decimal(d)[0] as int == 48 + d,
{
    assert((10 * n + d) / 10 == n);
    assert((10 * n + d) % 10 == d);
    assert(decimal(10 * n + d) =~= decimal(n) + decimal(d));
}

/// A negative number is written as a minus sign and its magnitude, any other
/// number as it is.
pub proof fn law_sign_stands_in_front(n: nat)
    ensures
        signed_decimal(n as int) == decimal(n),
        n > 0 ==> signed_decimal(-(n as int)) == seq!['-'] + decimal(n),
{
}

/// The value of a hexadecimal digit.
pub open spec fn hex_value(c: char) -> int {
    if '0' <= c && c <= '9' {
        c as int - '0' as int
    } else {
        c as int - 'a' as int + 10
    }
}

/// A number within the range of the width is written with exactly that many
/// digits, all of them decimal digits or lower-case letters up to `f`; the last
/// one is its remainder modulo 16, those before it are its quotient.
pub proof fn law_hex_digits_make_the_number(n: nat, width: nat)
    ensures
        hex_digits(n, width).len() == width,
        forall|i: int|
            0 <= i < width ==> {
                let c = #[trigger] hex_digits(n, width)[i];
                ('0' <= c && c <= '9') || ('a' <= c && c <= 'f')
            },
        width > 0 ==> hex_value(hex_digits(n, width).last()) == n % 16,
        width > 0 ==> hex_digits(n, width).drop_last() == hex_digits(
            n / 16,
            (width - 1) as nat,
        ),
    decreases width,
{
    if width > 0 {
        law_hex_digits_make_the_number(n / 16, (width - 1) as nat);
        assert(hex_digits(n, width).drop_last() =~= hex_digits(n / 16, (width - 1) as nat));
        assert forall|i: int| 0 <= i < width implies {
            let c = #[trigger] hex_digits(n, width)[i];
            ('0' <= c && c <= '9') || ('a' <= c && c <= 'f')
        } by {
            if i < width - 1 {
                assert(hex_digits(n, width)[i] == hex_digits(n / 16, (width - 1) as nat)[i]);
            }
        }
    }
}

/// A text is read as a number only where it holds nothing but digits after at
/// most one plus sign, and at least one of them. The sign makes no difference.
pub proof fn law_only_digits_are_a_number(s: Seq<char>, i: int)
    ensures
        number_in(Seq::empty()) is None,
        number_in(seq!['+']) is None,
        0 < i < s.len() && !('0' <= s[i] && s[i] <= '9') ==> number_in(s) is None,
        s.len() > 0 && s[0] != '+' && !('0' <= s[0] && s[0] <= '9') ==> number_in(s) is None,
        s.len() > 0 && s[0] != '+' ==> number_in(seq!['+'] + s) == number_in(s),
{
    assert(without_plus(seq!['+']) =~= Seq::<char>::empty());
    let digits = without_plus(s);
    if 0 < i < s.len() && !('0' <= s[i] && s[i] <= '9') {
        let k = if s[0] == '+' {
            i - 1
        } else {
            i
        };
        assert(digits[k] == s[i]);
        assert(!is_digit(digits[k]));
    }
    if s.len() > 0 && s[0] != '+' {
        assert(without_plus(seq!['+'] + s) =~= s);
        assert(digits == s);
        if !('0' <= s[0] && s[0] <= '9') {
            assert(!is_digit(digits[0]));
        }
    }
}

/// A single digit is read as its value; one more digit makes the number ten
/// times as large, and the digit more, as long as it fits in 64 bits; what does
/// not fit is no number.
pub proof fn law_number_grows_with_its_digits(s: Seq<char>, d: char)
    requires
        '0' <= d && d <= '9',
    ensures
        number_in(seq![d]) == Some((d as int - '0' as int) as u64),
        number_in(s) matches Some(n) ==> number_in(s.push(d)) == (if 10 * n + (d as int
            - '0' as int) <= u64::MAX {
            Some((10 * n + (d as int - '0' as int)) as u64)
        } else {
            None
        }),
{
    let one = seq![d];
    assert(without_plus(one) == one);
    assert(one.drop_last() =~= Seq::<char>::empty());
    assert(digits_value(Seq::<char>::empty()) == 0);
    assert(digits_value(one) == (one.last() as nat - 48) as nat);
    if let Some(n) = number_in(s) {
        let digits = without_plus(s);
        let more = s.push(d);
        assert(without_plus(more) =~= digits.push(d));
        assert(digits.push(d).drop_last() =~= digits);
        assert forall|i: int| 0 <= i < digits.push(d).len() implies is_digit(
            #[trigger] digits.push(d)[i],
        ) by {
            if i < digits.len() {
                assert(is_digit(digits[i]));
            }
        }
    }
}

} // verus!
