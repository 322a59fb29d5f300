//! Numbers as text: decimal and hexadecimal rendering, and parsing with the
//! same acceptance rules as the integer types of the standard library.
use vstd::prelude::*;
use vstd::string::*;
use crate::text::chars_of;

verus! {

/// The character of a digit below 16.
pub open spec fn digit_char(d: nat) -> char {
    if d < 10 {
        (48 + d) as char
    } else {
        (87 + d) as char
    }
}

/// A number written in a base of at most 16, without leading zeros.
pub open spec fn in_base(n: nat, base: nat) -> Seq<char>
    recommends
        2 <= base <= 16,
    decreases n,
{
    if n < base || base < 2 {
        seq![digit_char(n)]
    } else {
        proof {
            assert(n / base < n) by (nonlinear_arith)
                requires
                    n >= base,
                    base >= 2,
            ;
        }
        in_base(n / base, base).push(digit_char(n % base))
    }
}

/// A natural number in decimal.
pub open spec fn decimal(n: nat) -> Seq<char> {
    in_base(n, 10)
}

/// An integer in decimal, with a minus sign where it is negative.
pub open spec fn signed_decimal(n: int) -> Seq<char> {
    if n < 0 {
        seq!['-'] + decimal((-n) as nat)
    } else {
        decimal(n as nat)
    }
}

/// Two numbers with the same decimal form are the same.
pub proof fn lemma_decimal_apart(a: nat, b: nat)
    requires
        decimal(a) == decimal(b),
    ensures
        a == b,
    decreases a,
{
    let s = decimal(a);
    let t = decimal(b);
    if a >= 10 {
        lemma_decimal_long(a);
        if b >= 10 {
            assert(s.last() == digit_char(a % 10) && t.last() == digit_char(b % 10));
            assert(s.drop_last() =~= decimal(a / 10));
            assert(t.drop_last() =~= decimal(b / 10));
            lemma_decimal_apart(a / 10, b / 10);
        }
    } else if b >= 10 {
        lemma_decimal_long(b);
    } else {
        assert(s[0] == digit_char(a) && t[0] == digit_char(b));
    }
}

/// A number from ten on has more than one digit.
proof fn lemma_decimal_long(n: nat)
    requires
        n >= 10,
    ensures
        decimal(n).len() > 1,
{
    assert(decimal(n) == decimal(n / 10).push(digit_char(n % 10)));
    assert(in_base(n / 10, 10).len() > 0);
}

/// One digit as a string.
fn digit_str(d: u64) -> (r: &'static str)
    requires
        d < 16,
    ensures
        r@ == seq![digit_char(d as nat)],
{
    proof {
        reveal_strlit("0");
        reveal_strlit("1");
        reveal_strlit("2");
        reveal_strlit("3");
        reveal_strlit("4");
        reveal_strlit("5");
        reveal_strlit("6");
        reveal_strlit("7");
        reveal_strlit("8");
        reveal_strlit("9");
        reveal_strlit("a");
        reveal_strlit("b");
        reveal_strlit("c");
        reveal_strlit("d");
        reveal_strlit("e");
        reveal_strlit("f");
    }
    if d == 0 {
        "0"
    } else if d == 1 {
        "1"
    } else if d == 2 {
        "2"
    } else if d == 3 {
        "3"
    } else if d == 4 {
        "4"
    } else if d == 5 {
        "5"
    } else if d == 6 {
        "6"
    } else if d == 7 {
        "7"
    } else if d == 8 {
        "8"
    } else if d == 9 {
        "9"
    } else if d == 10 {
        "a"
    } else if d == 11 {
        "b"
    } else if d == 12 {
        "c"
    } else if d == 13 {
        "d"
    } else if d == 14 {
        "e"
    } else {
        "f"
    }
}

/// A number in decimal.
pub fn u64_to_string(n: u64) -> (r: String)
    ensures
        r@ == decimal(n as nat),
    decreases n,
{
    if n < 10 {
        digit_str(n).to_owned()
    } else {
        let mut s: String = u64_to_string(n / 10);
        s.append(digit_str(n % 10));
        assert(in_base((n / 10) as nat, 10) + seq![digit_char((n % 10) as nat)]
            =~= in_base((n / 10) as nat, 10).push(digit_char((n % 10) as nat)));
        s
    }
}

/// A signed number in decimal.
pub fn i64_to_string(n: i64) -> (r: String)
    ensures
        r@ == signed_decimal(n as int),
{
    if n >= 0 {
        u64_to_string(n as u64)
    } else {
        let m: u64 = (-(n as i128)) as u64;
        let mut s: String = "-".to_owned();
        proof {
            reveal_strlit("-");
            assert("-"@ =~= seq!['-']);
        }
        s.append(u64_to_string(m).as_str());
        s
    }
}

/// The low `width` hexadecimal digits of `n`.
pub open spec fn hex_digits(n: nat, width: nat) -> Seq<char>
    decreases width,
{
    if width == 0 {
        Seq::empty()
    } else {
        hex_digits(n / 16, (width - 1) as nat).push(digit_char(n % 16))
    }
}

/// Hexadecimal digits are ASCII characters, as many as asked for.
pub proof fn lemma_hex_ascii(n: nat, width: nat)
    ensures
        hex_digits(n, width).len() == width,
        vstd::utf8::is_ascii_chars(hex_digits(n, width)),
    decreases width,
{
    if width > 0 {
        lemma_hex_ascii(n / 16, (width - 1) as nat);
        let d = n % 16;
        assert(digit_char(d) <= '\u{7f}');
    }
}

fn hex_from(n: u64, width: u64) -> (r: String)
    ensures
        r@ == hex_digits(n as nat, width as nat),
    decreases width,
{
    if width == 0 {
        String::new()
    } else {
        let mut s: String = hex_from(n / 16, width - 1);
        s.append(digit_str(n % 16));
        assert(hex_digits((n / 16) as nat, (width - 1) as nat) + seq![digit_char((n % 16) as nat)]
            =~= hex_digits((n / 16) as nat, (width - 1) as nat).push(
            digit_char((n % 16) as nat),
        ));
        s
    }
}

/// Sixteen hexadecimal digits, zero-padded.
pub fn hex16(n: u64) -> (r: String)
    ensures
        r@ == hex_digits(n as nat, 16),
{
    hex_from(n, 16)
}

/// A number in hexadecimal, without leading zeros.
pub fn hex(n: u64) -> (r: String)
    ensures
        r@ == in_base(n as nat, 16),
    decreases n,
{
    if n < 16 {
        digit_str(n).to_owned()
    } else {
        let mut s: String = hex(n / 16);
        s.append(digit_str(n % 16));
        assert(in_base((n / 16) as nat, 16) + seq![digit_char((n % 16) as nat)]
            =~= in_base((n / 16) as nat, 16).push(digit_char((n % 16) as nat)));
        s
    }
}

// ---------------------------------------------------------------------------
// Parsing
// ---------------------------------------------------------------------------

/// Whether a character is a decimal digit.
pub open spec fn is_digit(c: char) -> bool {
    48 <= c as u32 && c as u32 <= 57
}

/// Whether a sequence is a non-empty run of decimal digits.
pub open spec fn is_digits(s: Seq<char>) -> bool {
    s.len() > 0 && forall|i: int| 0 <= i < s.len() ==> is_digit(#[trigger] s[i])
}

/// The value of a run of decimal digits.
pub open spec fn digits_value(s: Seq<char>) -> nat
    decreases s.len(),
{
    if s.len() == 0 {
        0
    } else {
        digits_value(s.drop_last()) * 10 + ((s.last() as u32 - 48) as nat)
    }
}

/// The number that `s` denotes, if it is a run of digits with an optional plus
/// sign and does not exceed `max`.
pub open spec fn parse_unsigned(s: Seq<char>, max: nat) -> Option<nat> {
    let d = if s.len() > 0 && s[0] == '+' {
        s.skip(1)
    } else {
        s
    };
    if is_digits(d) && digits_value(d) <= max {
        Some(digits_value(d))
    } else {
        None
    }
}

/// The number that `s` denotes, if it is a run of digits with an optional sign
/// and lies in the range of `i64`.
pub open spec fn parse_signed(s: Seq<char>) -> Option<int> {
    if s.len() > 0 && s[0] == '-' {
        if is_digits(s.skip(1)) && digits_value(s.skip(1)) <= 0x8000_0000_0000_0000 {
            Some(-(digits_value(s.skip(1)) as int))
        } else {
            None
        }
    } else {
        match parse_unsigned(s, 0x7fff_ffff_ffff_ffff) {
            Some(n) => Some(n as int),
            None => None,
        }
    }
}

proof fn lemma_value_grows(s: Seq<char>, k: int)
    requires
        0 <= k <= s.len(),
        forall|i: int| 0 <= i < s.len() ==> is_digit(#[trigger] s[i]),
    ensures
        digits_value(s.take(k)) <= digits_value(s),
    decreases s.len() - k,
{
    if k == s.len() {
        assert(s.take(k) =~= s);
    } else {
        lemma_value_grows(s, k + 1);
        assert(s.take(k + 1).drop_last() =~= s.take(k));
        assert(is_digit(s[k]));
    }
}

/// The value of the digits from position `from`, if they are a non-empty run
/// of digits whose value is at most `max`.
fn parse_digits(cs: &Vec<char>, from: usize, max: u64) -> (r: Option<u64>)
    requires
        from <= cs@.len(),
    ensures
        match r {
            Some(n) => is_digits(cs@.skip(from as int)) && n == digits_value(cs@.skip(from as int))
                && n <= max,
            None => !(is_digits(cs@.skip(from as int)) && digits_value(cs@.skip(from as int))
                <= max),
        },
{
    let ghost d = cs@.skip(from as int);
    if from == cs.len() {
        return None;
    }
    let mut v: u64 = 0;
    let mut i: usize = from;
    assert(d.take(0) =~= Seq::<char>::empty());
    while i < cs.len()
        invariant
            from <= i <= cs.len(),
            d == cs@.skip(from as int),
            v == digits_value(d.take(i - from)),
            v <= max,
            forall|j: int| 0 <= j < i - from ==> is_digit(#[trigger] d[j]),
        decreases cs@.len() - i,
    {
        let c: u32 = cs[i] as u32;
        assert(d[i - from] == cs@[i as int]);
        if c < 48 || c > 57 {
            assert(!is_digit(d[i - from]));
            return None;
        }
        let x: u64 = (c - 48) as u64;
        assert(d.take(i + 1 - from).drop_last() =~= d.take(i - from));
        assert(digits_value(d.take(i + 1 - from)) == v * 10 + x);
        if x > max || v > max / 10 || v * 10 > max - x {
            proof {
                if is_digits(d) {
                    lemma_value_grows(d, i + 1 - from);
                }
            }
            return None;
        }
        v = v * 10 + x;
        i = i + 1;
    }
    assert(d.take(d.len() as int) =~= d);
    Some(v)
}

/// Parses an unsigned number of at most `max`.
pub fn parse_u64(s: &str, max: u64) -> (r: Option<u64>)
    ensures
        match r {
            Some(n) => parse_unsigned(s@, max as nat) == Some(n as nat),
            None => parse_unsigned(s@, max as nat) is None,
        },
{
    let cs: Vec<char> = chars_of(s);
    if cs.len() > 0 && cs[0] == '+' {
        parse_digits(&cs, 1, max)
    } else {
        assert(cs@.skip(0) =~= cs@);
        parse_digits(&cs, 0, max)
    }
}

/// Parses a `u32`.
pub fn parse_u32(s: &str) -> (r: Option<u32>)
    ensures
        match r {
            Some(n) => parse_unsigned(s@, 0xffff_ffff) == Some(n as nat),
            None => parse_unsigned(s@, 0xffff_ffff) is None,
        },
{
    match parse_u64(s, 0xffff_ffff) {
        Some(n) => Some(n as u32),
        None => None,
    }
}

/// Parses an `i64`.
pub fn parse_i64(s: &str) -> (r: Option<i64>)
    ensures
        match r {
            Some(n) => parse_signed(s@) == Some(n as int),
            None => parse_signed(s@) is None,
        },
{
    let cs: Vec<char> = chars_of(s);
    if cs.len() > 0 && cs[0] == '-' {
        match parse_digits(&cs, 1, 0x8000_0000_0000_0000) {
            Some(n) => Some((-(n as i128)) as i64),
            None => None,
        }
    } else {
        match parse_u64(s, 0x7fff_ffff_ffff_ffff) {
            Some(n) => Some(n as i64),
            None => None,
        }
    }
}

/// The decimal form of a number is a run of digits with its value.
pub proof fn lemma_decimal_digits(n: nat)
    ensures
        is_digits(decimal(n)),
        digits_value(decimal(n)) == n,
    decreases n,
{
    let s = decimal(n);
    if n < 10 {
        assert(s.drop_last() =~= Seq::<char>::empty());
        assert(s.last() == digit_char(n));
        assert(digits_value(s.drop_last()) == 0);
        assert(digit_char(n) as u32 == 48 + n);
    } else {
        let t = decimal(n / 10);
        lemma_decimal_digits(n / 10);
        assert(digit_char(n % 10) as u32 == 48 + n % 10);
        assert(s == t.push(digit_char(n % 10)));
        assert(s.drop_last() =~= t);
        assert forall|i: int| 0 <= i < s.len() implies is_digit(#[trigger] s[i]) by {
            if i < t.len() {
                assert(s[i] == t[i]);
            }
        }
    }
}

/// A number written in decimal is read back as the same number, as long as the
/// type that it is read into can hold it.
pub proof fn law_decimal_is_read_back(n: nat, max: nat)
    ensures
        n <= max ==> parse_unsigned(decimal(n), max) == Some(n),
        n > max ==> parse_unsigned(decimal(n), max) is None,
        n <= 0x7fff_ffff_ffff_ffff ==> parse_signed(decimal(n)) == Some(n as int),
{
    lemma_decimal_digits(n);
    assert(is_digit(decimal(n)[0]));
}

proof fn lemma_hex_tells_apart(n: nat, m: nat, width: nat)
    requires
        n < vstd::arithmetic::power::pow(16, width),
        m < vstd::arithmetic::power::pow(16, width),
        n != m,
    ensures
        hex_digits(n, width) != hex_digits(m, width),
    decreases width,
{
    reveal(vstd::arithmetic::power::pow);
    if width > 0 {
        let p = vstd::arithmetic::power::pow(16, (width - 1) as nat);
        assert(vstd::arithmetic::power::pow(16, width) == 16 * p);
        let a = hex_digits(n / 16, (width - 1) as nat);
        let b = hex_digits(m / 16, (width - 1) as nat);
        assert(hex_digits(n, width).drop_last() =~= a);
        assert(hex_digits(m, width).drop_last() =~= b);
        assert(hex_digits(n, width).last() == digit_char(n % 16));
        assert(hex_digits(m, width).last() == digit_char(m % 16));
        if n / 16 != m / 16 {
            lemma_hex_tells_apart(n / 16, m / 16, (width - 1) as nat);
        } else {
            assert(n % 16 != m % 16);
            assert(digit_char(n % 16) != digit_char(m % 16));
        }
    }
}

/// Two numbers of 64 bits that differ have different hexadecimal digits.
pub proof fn lemma_hex16_tells_apart(n: nat, m: nat)
    requires
        n < 0x1_0000_0000_0000_0000,
        m < 0x1_0000_0000_0000_0000,
        n != m,
    ensures
        hex_digits(n, 16) != hex_digits(m, 16),
{
    reveal_with_fuel(vstd::arithmetic::power::pow, 17);
    assert(vstd::arithmetic::power::pow(16, 16) == 0x1_0000_0000_0000_0000);
    lemma_hex_tells_apart(n, m, 16);
}

/// Two numbers that differ are written with different hexadecimal digits.
pub proof fn law_hex_tells_apart(n: u64, m: u64, a: String, b: String)
    requires
        call_ensures(hex16, (n,), a),
        call_ensures(hex16, (m,), b),
        n != m,
    ensures
        a@ != b@,
{
    lemma_hex16_tells_apart(n as nat, m as nat);
}

/// A number with a sign is read back from its digits.
pub proof fn law_signed_decimal_is_read_back(n: i64, s: String, t: &str, r: Option<i64>)
    requires
        call_ensures(i64_to_string, (n,), s),
        t@ == s@,
        call_ensures(parse_i64, (t,), r),
    ensures
        r == Some(n),
{
    let k: nat = if n < 0 {
        (-n) as nat
    } else {
        n as nat
    };
    lemma_decimal_digits(k);
    if n < 0 {
        assert(s@.skip(1) =~= decimal(k));
    } else {
        law_decimal_is_read_back(k, 0x7fff_ffff_ffff_ffff);
        assert(is_digit(s@[0]));
    }
}

} // verus!
