//! Numbers as text: reading decimal integers and writing positional numerals.
use vstd::prelude::*;

use crate::text::chars_of;

verus! {

/// The character that writes the digit `d`, with letters from ten on.
pub open spec fn digit_char(d: int) -> char {
    if d < 10 {
        (d + 0x30) as char
    } else {
        (d - 10 + 0x61) as char
    }
}

/// The numeral of `n` in base `base`, most significant digit first, without leading zeros.
pub open spec fn numeral(n: nat, base: nat) -> Seq<char>
    recommends
        2 <= base <= 16,
    decreases n,
{
    if base < 2 || n < base {
        seq![digit_char(n as int)]
    } else {
        proof {
            assert(n / base < n) by (nonlinear_arith)
                requires
                    n >= base,
                    base >= 2,
            ;
        }
        numeral(n / base, base).push(digit_char((n % base) as int))
    }
}

/// The decimal text of an integer.
pub open spec fn decimal(n: int) -> Seq<char> {
    if n < 0 {
        seq!['-'] + numeral((-n) as nat, 10)
    } else {
        numeral(n as nat, 10)
    }
}

/// Digits below sixteen are written by different characters.
pub proof fn lemma_digit_char_distinct(a: int, b: int)
    requires
        0 <= a < 16,
        0 <= b < 16,
        digit_char(a) == digit_char(b),
    ensures
        a == b,
{
    assert(digit_char(a) as int == if a < 10 { a + 0x30 } else { a - 10 + 0x61 });
    assert(digit_char(b) as int == if b < 10 { b + 0x30 } else { b - 10 + 0x61 });
}

/// Different numbers have different numerals.
pub proof fn numeral_is_injective(m: nat, n: nat, base: nat)
    requires
        2 <= base <= 16,
        numeral(m, base) == numeral(n, base),
    ensures
        m == n,
    decreases m + n,
{
    let a = numeral(m, base);
    let b = numeral(n, base);
    lemma_numeral_nonempty(m / base, base);
    lemma_numeral_nonempty(n / base, base);
    if m < base && n < base {
        assert(a == seq![digit_char(m as int)] && b == seq![digit_char(n as int)]);
        assert(a[0] == digit_char(m as int) && b[0] == digit_char(n as int));
        lemma_digit_char_distinct(m as int, n as int);
    } else if m < base {
        assert(a.len() == 1);
        assert(b.len() == numeral(n / base, base).len() + 1);
    } else if n < base {
        assert(b.len() == 1);
        assert(a.len() == numeral(m / base, base).len() + 1);
    } else {
        assert(a.drop_last() =~= numeral(m / base, base));
        assert(b.drop_last() =~= numeral(n / base, base));
        assert(a.last() == digit_char((m % base) as int));
        assert(b.last() == digit_char((n % base) as int));
        assert(m % base < base && n % base < base) by (nonlinear_arith)
            requires
                base >= 2,
        ;
        lemma_digit_char_distinct((m % base) as int, (n % base) as int);
        assert(m / base < m && n / base < n) by (nonlinear_arith)
            requires
                m >= base,
                n >= base,
                base >= 2,
        ;
        numeral_is_injective(m / base, n / base, base);
        vstd::arithmetic::div_mod::lemma_fundamental_div_mod(m as int, base as int);
        vstd::arithmetic::div_mod::lemma_fundamental_div_mod(n as int, base as int);
    }
}

/// A numeral has at least one digit.
pub proof fn lemma_numeral_nonempty(n: nat, base: nat)
    ensures
        numeral(n, base).len() > 0,
    decreases n,
{
}

/// The one-character text of a digit below sixteen.
fn digit_text(d: u64) -> (r: &'static str)
    requires
        d < 16,
    ensures
        r@ == seq![digit_char(d as int)],
{
    proof {
        reveal_strlit("0");
        reveal_strlit("1");
        reveal_strlit("2");
        reveal_strlit("3");
        reveal_strlit("4");
        reveal_strlit("5");
        reveal_strlit("6");
        reveal_strlit("7");
        reveal_strlit("8");
        reveal_strlit("9");
        reveal_strlit("a");
        reveal_strlit("b");
        reveal_strlit("c");
        reveal_strlit("d");
        reveal_strlit("e");
        reveal_strlit("f");
    }
    let r: &'static str = match d {
        0 => "0",
        1 => "1",
        2 => "2",
        3 => "3",
        4 => "4",
        5 => "5",
        6 => "6",
        7 => "7",
        8 => "8",
        9 => "9",
        10 => "a",
        11 => "b",
        12 => "c",
        13 => "d",
        14 => "e",
        _ => "f",
    };
    assert(r@ =~= seq![digit_char(d as int)]);
    r
}

/// The numeral of `n` in base `base`.
pub fn to_numeral(n: u64, base: u64) -> (r: String)
    requires
        2 <= base <= 16,
    ensures
        r@ == numeral(n as nat, base as nat),
    decreases n,
{
    if n < base {
        digit_text(n).to_owned()
    } else {
        proof {
            assert(n / base < n) by (nonlinear_arith)
                requires
                    n >= base,
                    base >= 2,
            ;
            assert(n % base < base) by (nonlinear_arith)
                requires
                    base >= 2,
            ;
        }
        let mut head: String = to_numeral(n / base, base);
        head.append(digit_text(n % base));
        assert(head@ =~= numeral(n as nat / base as nat, base as nat).push(
            digit_char((n as nat % base as nat) as int),
        ));
        head
    }
}

/// The decimal text of an unsigned number.
pub fn to_decimal(n: u64) -> (r: String)
    ensures
        r@ == decimal(n as int),
{
    to_numeral(n, 10)
}

/// The decimal text of a signed number.
pub fn to_signed_decimal(n: i64) -> (r: String)
    ensures
        r@ == decimal(n as int),
{
    if n < 0 {
        let size: u64 = (-(n + 1)) as u64 + 1;
        let digits: String = to_decimal(size);
        let mut r: String = "-".to_owned();
        r.append(&digits);
        proof {
            reveal_strlit("-");
            assert("-"@ =~= seq!['-']);
        }
        r
    } else {
        to_decimal(n as u64)
    }
}

// ---------------------------------------------------------------------------------------------
// Reading
// ---------------------------------------------------------------------------------------------
/// `c` is one of the ten ASCII digits.
pub open spec fn is_digit(c: char) -> bool {
    '0' <= c && c <= '9'
}

/// `s` is one digit or more and nothing else.
pub open spec fn all_digits(s: Seq<char>) -> bool {
    s.len() > 0 && forall|i: int| 0 <= i < s.len() ==> is_digit(#[trigger] s[i])
}

/// The number that a row of digits writes in decimal.
pub open spec fn digits_value(s: Seq<char>) -> nat
    decreases s.len(),
{
    if s.len() == 0 {
        0
    } else {
        10 * digits_value(s.drop_last()) + (s.last() as nat - '0' as nat) as nat
    }
}

/// Reads a decimal number with an optional plus sign, at most `max`.
pub open spec fn parse_unsigned(s: Seq<char>, max: nat) -> Option<nat> {
    let body = if s.len() > 0 && s[0] == '+' {
        s.skip(1)
    } else {
        s
    };
    if all_digits(body) && digits_value(body) <= max {
        Some(digits_value(body))
    } else {
        None
    }
}

/// Reads a decimal number with an optional sign, from `-max - 1` to `max`.
pub open spec fn parse_signed(s: Seq<char>, max: nat) -> Option<int> {
    if s.len() > 0 && s[0] == '-' {
        let body = s.skip(1);
        if all_digits(body) && digits_value(body) <= max + 1 {
            Some(-(digits_value(body) as int))
        } else {
            None
        }
    } else {
        match parse_unsigned(s, max) {
            Some(n) => Some(n as int),
            None => None,
        }
    }
}

/// More digits behind a row never make its number smaller.
proof fn lemma_digits_value_grows(s: Seq<char>, k: int)
    requires
        0 <= k <= s.len(),
    ensures
        digits_value(s.take(k)) <= digits_value(s),
    decreases s.len() - k,
{
    if k < s.len() {
        lemma_digits_value_grows(s, k + 1);
        assert(s.take(k + 1).drop_last() =~= s.take(k));
    } else {
        assert(s.take(k) =~= s);
    }
}

/// Reads the digits from position `from` to the end.
fn read_digits(s: &Vec<char>, from: usize, max: u64) -> (r: Option<u64>)
    requires
        from <= s@.len(),
    ensures
        match r {
            Some(n) => all_digits(s@.skip(from as int)) && digits_value(s@.skip(from as int)) == n
                && n <= max,
            None => !(all_digits(s@.skip(from as int)) && digits_value(s@.skip(from as int)) <= max),
        },
{
    let ghost body = s@.skip(from as int);
    if from == s.len() {
        return None;
    }
    let mut value: u128 = 0;
    let mut i: usize = from;
    assert(body.take(0) =~= Seq::<char>::empty());
    while i < s.len()
        invariant
            from <= i <= s@.len(),
            from < s@.len(),
            body == s@.skip(from as int),
            value <= max,
            value == digits_value(body.take(i - from)),
            forall|j: int| 0 <= j < i - from ==> is_digit(#[trigger] body[j]),
        decreases s@.len() - i,
    {
        let c: char = s[i];
        assert(body[i - from] == c);
        if c < '0' || '9' < c {
            return None;
        }
        let d: u128 = c as u128 - 0x30;
        proof {
            assert(body.take(i - from + 1).drop_last() =~= body.take(i - from));
            assert(digits_value(body.take(i - from + 1)) == 10 * value + d);
        }
        if value * 10 + d > max as u128 {
            proof {
                lemma_digits_value_grows(body, i - from + 1);
            }
            return None;
        }
        value = value * 10 + d;
        i += 1;
    }
    assert(body.take(i - from) =~= body);
    Some(value as u64)
}

/// Reads an unsigned decimal number of at most 64 bits.
pub fn parse_u64(s: &str) -> (r: Option<u64>)
    ensures
        match r {
            Some(n) => parse_unsigned(s@, u64::MAX as nat) == Some(n as nat),
            None => parse_unsigned(s@, u64::MAX as nat) is None,
        },
{
    let c: Vec<char> = chars_of(s);
    let from: usize = if c.len() > 0 && c[0] == '+' {
        1
    } else {
        0
    };
    assert(s@.skip(0) =~= s@);
    read_digits(&c, from, u64::MAX)
}

/// Reads an unsigned decimal number of at most 32 bits.
pub fn parse_u32(s: &str) -> (r: Option<u32>)
    ensures
        match r {
            Some(n) => parse_unsigned(s@, u32::MAX as nat) == Some(n as nat),
            None => parse_unsigned(s@, u32::MAX as nat) is None,
        },
{
    let c: Vec<char> = chars_of(s);
    let from: usize = if c.len() > 0 && c[0] == '+' {
        1
    } else {
        0
    };
    assert(s@.skip(0) =~= s@);
    match read_digits(&c, from, u32::MAX as u64) {
        Some(n) => Some(n as u32),
        None => None,
    }
}

/// Reads a signed decimal number of 32 bits.
pub fn parse_i32(s: &str) -> (r: Option<i32>)
    ensures
        match r {
            Some(n) => parse_signed(s@, i32::MAX as nat) == Some(n as int),
            None => parse_signed(s@, i32::MAX as nat) is None,
        },
{
    let c: Vec<char> = chars_of(s);
    assert(s@.skip(0) =~= s@);
    if c.len() > 0 && c[0] == '-' {
        match read_digits(&c, 1, 0x8000_0000) {
            Some(n) => Some((0 - n as i64) as i32),
            None => None,
        }
    } else {
        let from: usize = if c.len() > 0 && c[0] == '+' {
            1
        } else {
            0
        };
        match read_digits(&c, from, 0x7fff_ffff) {
            Some(n) => Some(n as i32),
            None => None,
        }
    }
}

proof fn lemma_numeral_reads_back(n: nat)
    ensures
        all_digits(numeral(n, 10)),
        digits_value(numeral(n, 10)) == n,
    decreases n,
{
    let s = numeral(n, 10);
    if n < 10 {
        assert(s =~= seq![digit_char(n as int)]);
        assert(s.drop_last() =~= Seq::<char>::empty());
        assert(digits_value(s.drop_last()) == 0);
        assert(s.last() as int == n + 0x30);
    } else {
        lemma_numeral_reads_back(n / 10);
        let head = numeral(n / 10, 10);
        let d = digit_char((n % 10) as int);
        assert(d as int == n % 10 + 0x30);
        assert(s == head.push(d));
        assert(s.drop_last() =~= head);
        assert forall|i: int| 0 <= i < s.len() implies is_digit(#[trigger] s[i]) by {
            if i < head.len() {
                assert(s[i] == head[i]);
            }
        }
    }
}

/// A number that is written in decimal is read back as itself, where it lies in the range that is
/// read.
pub proof fn reading_undoes_writing(n: int, max: nat)
    requires
        -max - 1 <= n <= max,
    ensures
        parse_signed(decimal(n), max) == Some(n),
        n >= 0 ==> parse_unsigned(decimal(n), max) == Some(n as nat),
{
    let size = if n < 0 {
        (-n) as nat
    } else {
        n as nat
    };
    lemma_numeral_reads_back(size);
    let digits = numeral(size, 10);
    assert(is_digit(digits[0]));
    if n < 0 {
        assert(decimal(n)[0] == '-');
        assert(decimal(n).skip(1) =~= digits);
    }
}

/// What is written in decimal holds digits, and in front of a negative number a minus sign.
pub proof fn decimals_have_no_letters(n: int)
    ensures
        decimal(n).len() > 0,
        forall|i: int| 0 <= i < decimal(n).len() ==> is_digit(#[trigger] decimal(n)[i]) || (i == 0
            && n < 0 && decimal(n)[i] == '-'),
        n >= 0 ==> is_digit(decimal(n)[0]),
{
    let size = if n < 0 {
        (-n) as nat
    } else {
        n as nat
    };
    lemma_numeral_reads_back(size);
    let digits = numeral(size, 10);
    if n < 0 {
        assert forall|i: int| 1 <= i < decimal(n).len() implies is_digit(#[trigger] decimal(n)[i]) by {
            assert(decimal(n)[i] == digits[i - 1]);
        }
    }
}

/// Each further digit counts ten times as much in front of it.
pub proof fn digits_count_by_their_place(s: Seq<char>, d: char)
    requires
        is_digit(d),
    ensures
        digits_value(s.push(d)) == 10 * digits_value(s) + (d as int - 0x30),
        digits_value(Seq::empty()) == 0,
        is_digit(d) <==> 0x30 <= d as int <= 0x39,
{
    assert(s.push(d).drop_last() =~= s);
}

/// A plus sign and zeros in front do not change what is read, and anything but digits behind the
/// sign, or too large a number, is not read.
pub proof fn signs_and_zeros_do_not_count(s: Seq<char>, max: nat)
    requires
        all_digits(s),
    ensures
        parse_unsigned(s, max) == (if digits_value(s) <= max {
            Some(digits_value(s))
        } else {
            None
        }),
        parse_unsigned(seq!['+'] + s, max) == parse_unsigned(s, max),
        parse_unsigned(seq!['0'] + s, max) == parse_unsigned(s, max),
        parse_signed(s, max) == (if digits_value(s) <= max {
            Some(digits_value(s) as int)
        } else {
            None
        }),
        parse_signed(seq!['+'] + s, max) == parse_signed(s, max),
        parse_signed(seq!['0'] + s, max) == parse_signed(s, max),
        parse_signed(seq!['-'] + s, max) == (if digits_value(s) <= max + 1 {
            Some(-(digits_value(s) as int))
        } else {
            None
        }),
{
    assert((seq!['+'] + s).skip(1) =~= s);
    assert((seq!['-'] + s).skip(1) =~= s);
    assert(is_digit(s[0]));
    let z = seq!['0'] + s;
    lemma_zero_in_front(s);
    assert forall|i: int| 0 <= i < z.len() implies is_digit(#[trigger] z[i]) by {
        if i > 0 {
            assert(z[i] == s[i - 1]);
        }
    }
    assert(z[0] == '0');
}

proof fn lemma_zero_in_front(s: Seq<char>)
    ensures
        digits_value(seq!['0'] + s) == digits_value(s),
    decreases s.len(),
{
    let z = seq!['0'] + s;
    if s.len() == 0 {
        assert(z =~= Seq::<char>::empty().push('0'));
        assert(z.drop_last() =~= Seq::<char>::empty());
        assert(digits_value(z.drop_last()) == 0);
    } else {
        assert(z.drop_last() =~= seq!['0'] + s.drop_last());
        lemma_zero_in_front(s.drop_last());
    }
}

/// A text that holds anything but digits, behind at most one sign, is not read as a number.
pub proof fn other_characters_are_not_read(s: Seq<char>, i: int, max: nat)
    requires
        0 <= i < s.len(),
        !is_digit(s[i]),
        i > 0 || (s[i] != '+' && s[i] != '-'),
    ensures
        parse_unsigned(s, max) is None,
        parse_signed(s, max) is None,
{
    let t = s.skip(1);
    if i > 0 {
        assert(t[i - 1] == s[i]);
        assert(!all_digits(t));
    }
    assert(!all_digits(s));
}

/// A numeral grows by its last digit, which counts one, while the others count once more by the
/// base. Digits are written `0` to `9`, then `a` to `f`.
pub proof fn numerals_count_by_their_place(n: nat, d: nat, base: nat)
    requires
        2 <= base <= 16,
        d < base,
    ensures
        numeral(d, base).len() == 1,
        d <= 9 ==> numeral(d, base)[0] as int == d + '0' as int,
        d >= 10 ==> numeral(d, base)[0] as int == d - 10 + 'a' as int,
        n > 0 ==> numeral(n * base + d, base) == numeral(n, base) + numeral(d, base),
{
    let e = d as int;
    assert(digit_char(e) as int == if e < 10 { e + 0x30 } else { e - 10 + 0x61 });
    if n > 0 {
        let m = n * base + d;
        assert(m >= base) by (nonlinear_arith)
            requires
                m == n * base + d,
                n > 0,
        ;
        vstd::arithmetic::div_mod::lemma_fundamental_div_mod_converse(
            m as int,
            base as int,
            n as int,
            d as int,
        );
        assert(numeral(n, base) + numeral(d, base) =~= numeral(n, base).push(digit_char(d as int)));
    }
}

/// A text without a digit in it is no number.
pub proof fn signs_alone_are_not_read(s: Seq<char>, max: nat)
    requires
        forall|i: int| 0 <= i < s.len() ==> !is_digit(#[trigger] s[i]),
    ensures
        parse_unsigned(s, max) is None,
        parse_signed(s, max) is None,
{
    if s.len() > 1 {
        assert(s.skip(1)[0] == s[1]);
    }
}

/// A decimal has no zero in front of other digits, and that of a negative number is a minus sign and
/// the decimal of its size.
pub proof fn decimals_are_written_plainly(n: int)
    ensures
        n >= 0 && decimal(n).len() > 1 ==> decimal(n)[0] != '0',
        n < 0 ==> decimal(n) == seq!['-'] + decimal(-n),
        n >= 0 ==> decimal(n) == numeral(n as nat, 10),
{
    if n >= 0 {
        lemma_no_zero_in_front(n as nat);
    }
}

proof fn lemma_no_zero_in_front(n: nat)
    ensures
        n > 0 ==> numeral(n, 10)[0] != '0',
    decreases n,
{
    if n >= 10 {
        lemma_no_zero_in_front(n / 10);
        lemma_numeral_nonempty(n / 10, 10);
        assert(numeral(n, 10)[0] == numeral(n / 10, 10)[0]);
    } else {
        let d = n as int;
        assert(digit_char(d) as int == d + 0x30);
    }
}

} // verus!
