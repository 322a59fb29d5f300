//! IPv4 addresses and address ranges.
use vstd::prelude::*;
#[allow(unused_imports)]
use vstd::arithmetic::div_mod::{
    lemma_fundamental_div_mod,
    lemma_mod_decreases,
    lemma_mod_multiples_basic,
    lemma_mod_self_0,
};
use crate::numbers::{parse_u32, parse_u64};
#[allow(unused_imports)]
use crate::numbers::{
    decimal,
    digit_char,
    digits_value,
    is_digit,
    is_digits,
    law_decimal_is_read_back,
    lemma_decimal_digits,
    parse_unsigned,
};
use crate::split::{split_on, split_once};
#[allow(unused_imports)]
use crate::split::{law_split_undoes_join, split_char, split_first};
use crate::text::chars_of;

verus! {

/// The value of one part of a dotted address: one to three digits without a
/// leading zero, at most 255.
pub open spec fn octet(s: Seq<char>) -> Option<nat> {
    if is_digits(s) && s.len() <= 3 && (s.len() == 1 || s[0] != '0') && digits_value(s) <= 255 {
        Some(digits_value(s))
    } else {
        None
    }
}

/// The number that a dotted IPv4 address denotes.
pub open spec fn ipv4_value(s: Seq<char>) -> Option<nat> {
    let p = split_char(s, '.');
    if p.len() == 4 && octet(p[0]) is Some && octet(p[1]) is Some && octet(p[2]) is Some && octet(
        p[3],
    ) is Some {
        Some(
            octet(p[0])->0 * 0x100_0000 + octet(p[1])->0 * 0x1_0000 + octet(p[2])->0 * 0x100
                + octet(p[3])->0,
        )
    } else {
        None
    }
}

/// The number of addresses in a range with a given prefix length.
pub open spec fn block_size(prefix: nat) -> nat
    decreases 32 - prefix,
{
    if prefix >= 32 {
        1
    } else {
        2 * block_size(prefix + 1)
    }
}

/// The network address and prefix length that a CIDR text denotes.
pub open spec fn cidr_value(s: Seq<char>) -> Option<(nat, nat)> {
    match split_first(s, '/') {
        Some((ip, prefix)) => match (ipv4_value(ip), parse_unsigned(prefix, 0xffff_ffff)) {
            (Some(a), Some(p)) => if p <= 32 {
                Some(((a - a % block_size(p)) as nat, p))
            } else {
                None
            },
            _ => None,
        },
        None => None,
    }
}

/// Whether an address lies in a range.
pub open spec fn in_range(addr: int, range: (nat, nat)) -> bool {
    range.0 <= addr < range.0 + block_size(range.1)
}

/// Whether two CIDR texts denote ranges that share an address.
pub open spec fn ranges_meet(a: Seq<char>, b: Seq<char>) -> bool {
    match (cidr_value(a), cidr_value(b)) {
        (Some(x), Some(y)) => exists|addr: int| #[trigger] in_range(addr, x) && in_range(addr, y),
        _ => false,
    }
}

fn parse_octet(s: &str) -> (r: Option<u32>)
    ensures
        match r {
            Some(n) => octet(s@) == Some(n as nat) && n <= 255,
            None => octet(s@) is None,
        },
{
    let cs: Vec<char> = chars_of(s);
    if cs.len() == 0 || cs.len() > 3 || (cs.len() > 1 && cs[0] == '0') {
        return None;
    }
    if cs[0] == '+' {
        assert(!is_digit(s@[0]));
        return None;
    }
    match parse_u64(s, 255) {
        Some(n) => Some(n as u32),
        None => None,
    }
}

/// Parses a dotted IPv4 address.
pub fn parse_ipv4(s: &str) -> (r: Option<u32>)
    ensures
        match r {
            Some(n) => ipv4_value(s@) == Some(n as nat),
            None => ipv4_value(s@) is None,
        },
{
    let p: Vec<String> = split_on(s, '.');
    let ghost v = split_char(s@, '.');
    assert(p.deep_view().len() == p@.len());
    if p.len() != 4 {
        return None;
    }
    assert(v[0] == p@[0]@ && v[1] == p@[1]@ && v[2] == p@[2]@ && v[3] == p@[3]@);
    match (
        parse_octet(p[0].as_str()),
        parse_octet(p[1].as_str()),
        parse_octet(p[2].as_str()),
        parse_octet(p[3].as_str()),
    ) {
        (Some(a), Some(b), Some(c), Some(d)) => Some(
            a * 0x100_0000 + b * 0x1_0000 + c * 0x100 + d,
        ),
        _ => None,
    }
}

fn size_of_block(prefix: u32) -> (r: u64)
    requires
        prefix <= 32,
    ensures
        r == block_size(prefix as nat),
        1 <= r <= 0x1_0000_0000,
{
    let mut p: u32 = 32;
    let mut size: u64 = 1;
    while p > prefix
        invariant
            prefix <= p <= 32,
            size == block_size(p as nat),
            size >= 1,
            size <= pow_two((32 - p) as nat),
        decreases p,
    {
        proof {
            lemma_pow_two((32 - p) as nat);
        }
        p = p - 1;
        size = size * 2;
    }
    proof {
        lemma_pow_two((32 - p) as nat);
    }
    size
}

spec fn pow_two(n: nat) -> nat
    decreases n,
{
    if n == 0 {
        1
    } else {
        2 * pow_two((n - 1) as nat)
    }
}

proof fn lemma_pow_two(n: nat)
    requires
        n <= 32,
    ensures
        pow_two(n) <= 0x1_0000_0000,
{
    reveal_with_fuel(pow_two, 34);
}

/// Parses a CIDR text into its network address and prefix length.
pub fn parse_cidr(cidr: &str) -> (r: Option<(u32, u32)>)
    ensures
        match r {
            Some(x) => cidr_value(cidr@) == Some((x.0 as nat, x.1 as nat)),
            None => cidr_value(cidr@) is None,
        },
{
    match split_once(cidr, '/') {
        Some((ip, prefix)) => match (parse_ipv4(ip.as_str()), parse_u32(prefix.as_str())) {
            (Some(a), Some(p)) => if p <= 32 {
                let size: u64 = size_of_block(p);
                let rem: u64 = (a as u64) % size;
                proof {
                    lemma_mod_decreases(a as nat, size as nat);
                }
                Some((a - rem as u32, p))
            } else {
                None
            },
            _ => None,
        },
        None => None,
    }
}

proof fn lemma_block_ratio(p: nat, q: nat)
    requires
        p <= q <= 32,
    ensures
        block_size(q) >= 1,
        block_size(p) >= block_size(q),
        block_size(p) % block_size(q) == 0,
    decreases q - p,
{
    if p == q {
        lemma_block_positive(q);
        lemma_mod_self_0(block_size(q) as int);
    } else {
        lemma_block_ratio(p + 1, q);
        let a = block_size(p + 1) as int;
        let b = block_size(q) as int;
        lemma_fundamental_div_mod(a, b);
        assert(2 * a == (2 * (a / b)) * b) by (nonlinear_arith)
            requires
                a == b * (a / b),
        ;
        lemma_mod_multiples_basic(2 * (a / b), b);
    }
}

proof fn lemma_block_positive(p: nat)
    ensures
        block_size(p) >= 1,
    decreases 32 - p,
{
    if p < 32 {
        lemma_block_positive(p + 1);
    }
}

proof fn lemma_aligned(s: Seq<char>)
    ensures
        match cidr_value(s) {
            Some(x) => x.1 <= 32 && x.0 % block_size(x.1) == 0,
            None => true,
        },
{
    if let Some(x) = cidr_value(s) {
        let parts = split_first(s, '/')->0;
        let a = ipv4_value(parts.0)->0 as int;
        lemma_block_positive(x.1);
        let b = block_size(x.1) as int;
        lemma_mod_decreases(a as nat, b as nat);
        lemma_fundamental_div_mod(a, b);
        assert(a - a % b == (a / b) * b) by (nonlinear_arith)
            requires
                a == b * (a / b) + a % b,
        ;
        lemma_mod_multiples_basic(a / b, b);
    }
}

/// Two aligned ranges, the second not larger, meet exactly if the second lies
/// in the block of the first.
proof fn lemma_nested(x: (nat, nat), y: (nat, nat))
    requires
        x.1 <= y.1 <= 32,
        x.0 % block_size(x.1) == 0,
        y.0 % block_size(y.1) == 0,
    ensures
        (exists|addr: int| #[trigger] in_range(addr, x) && in_range(addr, y)) <==> x.0 == y.0 - y.0
            % block_size(x.1),
{
    let a = block_size(x.1) as int;
    let b = block_size(y.1) as int;
    lemma_block_ratio(x.1, y.1);
    let n = x.0 as int;
    let m = y.0 as int;
    let base = m - m % a;
    assert(base % a == 0 && base <= m < base + a) by (nonlinear_arith)
        requires
            a >= 1,
            base == m - m % a,
    ;
    // The whole of the second range lies in one block of the first size.
    assert(m + b <= base + a) by (nonlinear_arith)
        requires
            a >= 1,
            b >= 1,
            a % b == 0,
            m % b == 0,
            base == m - m % a,
    {
        let q = a / b;
        let t = m / b;
        let k = m / a;
        assert(a == q * b);
        assert(m == t * b);
        assert(base == k * a);
        assert(base == (k * q) * b);
        assert(m < base + a);
        assert(t * b < (k * q + q) * b);
        assert(t < k * q + q);
        assert(t + 1 <= k * q + q);
        assert((t + 1) * b <= (k * q + q) * b);
    }
    if n == base {
        assert(in_range(m, x) && in_range(m, y));
    }
    if exists|addr: int| #[trigger] in_range(addr, x) && in_range(addr, y) {
        let addr = choose|addr: int| #[trigger] in_range(addr, x) && in_range(addr, y);
        assert(n <= addr < n + a);
        assert(base <= addr < base + a);
        assert(n == base) by (nonlinear_arith)
            requires
                a >= 1,
                n % a == 0,
                base % a == 0,
                n <= addr < n + a,
                base <= addr < base + a,
        {
            let i = n / a;
            let j = base / a;
            assert(n == i * a);
            assert(base == j * a);
            assert(i < j + 1) by {
                assert(i * a < (j + 1) * a);
            }
            assert(j < i + 1) by {
                assert(j * a < (i + 1) * a);
            }
        }
    }
}

/// Checks whether two CIDRs overlap.
pub fn cidrs_overlap(a: &str, b: &str) -> (r: bool)
    ensures
        r == ranges_meet(a@, b@),
{
    match (parse_cidr(a), parse_cidr(b)) {
        (Some((net_a, pfx_a)), Some((net_b, pfx_b))) => {
            let ghost x = (net_a as nat, pfx_a as nat);
            let ghost y = (net_b as nat, pfx_b as nat);
            proof {
                lemma_aligned(a@);
                lemma_aligned(b@);
            }
            if pfx_a <= pfx_b {
                proof {
                    lemma_nested(x, y);
                }
                let size: u64 = size_of_block(pfx_a);
                proof {
                    lemma_mod_decreases(net_b as nat, size as nat);
                }
                net_a as u64 == net_b as u64 - net_b as u64 % size
            } else {
                proof {
                    lemma_nested(y, x);
                    assert((exists|addr: int| #[trigger] in_range(addr, x) && in_range(addr, y))
                        == (exists|addr: int| #[trigger] in_range(addr, y) && in_range(addr, x)))
                        by {
                        if exists|addr: int| #[trigger] in_range(addr, x) && in_range(addr, y) {
                            let addr = choose|addr: int| #[trigger]
                                in_range(addr, x) && in_range(addr, y);
                            assert(in_range(addr, y) && in_range(addr, x));
                        }
                        if exists|addr: int| #[trigger] in_range(addr, y) && in_range(addr, x) {
                            let addr = choose|addr: int| #[trigger]
                                in_range(addr, y) && in_range(addr, x);
                            assert(in_range(addr, x) && in_range(addr, y));
                        }
                    }
                }
                let size: u64 = size_of_block(pfx_b);
                proof {
                    lemma_mod_decreases(net_a as nat, size as nat);
                }
                net_b as u64 == net_a as u64 - net_a as u64 % size
            }
        },
        _ => false,
    }
}

/// Overlap does not depend on the order of the two ranges.
pub proof fn law_overlap_is_symmetric(a: Seq<char>, b: Seq<char>)
    ensures
        ranges_meet(a, b) == ranges_meet(b, a),
{
    if let (Some(x), Some(y)) = (cidr_value(a), cidr_value(b)) {
        if ranges_meet(a, b) {
            let addr = choose|addr: int| #[trigger] in_range(addr, x) && in_range(addr, y);
            assert(in_range(addr, y) && in_range(addr, x));
        }
        if ranges_meet(b, a) {
            let addr = choose|addr: int| #[trigger] in_range(addr, y) && in_range(addr, x);
            assert(in_range(addr, x) && in_range(addr, y));
        }
    }
}

/// A valid range overlaps itself.
pub proof fn law_overlap_is_reflexive(a: Seq<char>)
    requires
        cidr_value(a) is Some,
    ensures
        ranges_meet(a, a),
{
    let x = cidr_value(a)->0;
    lemma_block_positive(x.1);
    assert(in_range(x.0 as int, x) && in_range(x.0 as int, x));
}

/// The text of an IPv4 address with four numbers.
pub open spec fn dotted(a: nat, b: nat, c: nat, d: nat) -> Seq<char> {
    decimal(a) + seq!['.'] + (decimal(b) + seq!['.'] + (decimal(c) + seq!['.'] + decimal(d)))
}

proof fn lemma_octet_text(n: nat)
    requires
        n <= 255,
    ensures
        octet(decimal(n)) == Some(n),
        forall|i: int| 0 <= i < decimal(n).len() ==> #[trigger] decimal(n)[i] != '.',
        forall|i: int| 0 <= i < decimal(n).len() ==> #[trigger] decimal(n)[i] != '/',
{
    lemma_decimal_digits(n);
    let s = decimal(n);
    assert forall|i: int| 0 <= i < s.len() implies #[trigger] s[i] != '.' && s[i] != '/' by {
        assert(is_digit(s[i]));
    }
    if n >= 10 {
        let t = decimal(n / 10);
        assert(s == t.push(digit_char(n % 10)));
        if n >= 100 {
            assert(t == decimal(n / 100).push(digit_char((n / 10) % 10)));
            assert(decimal((n / 10) / 10) == seq![digit_char(n / 100)]);
            assert(s[0] == digit_char(n / 100));
            assert(digit_char(n / 100) as u32 == 48 + n / 100);
            assert(s.len() == 3);
        } else {
            assert(t == seq![digit_char(n / 10)]);
            assert(s[0] == digit_char(n / 10));
            assert(digit_char(n / 10) as u32 == 48 + n / 10);
            assert(s.len() == 2);
        }
    }
}

proof fn lemma_dotted_has_no_slash(a: nat, b: nat, c: nat, d: nat)
    requires
        a <= 255,
        b <= 255,
        c <= 255,
        d <= 255,
    ensures
        forall|i: int| 0 <= i < dotted(a, b, c, d).len() ==> #[trigger] dotted(a, b, c, d)[i] != '/',
{
    lemma_octet_text(a);
    lemma_octet_text(b);
    lemma_octet_text(c);
    lemma_octet_text(d);
    let two = decimal(c) + seq!['.'] + decimal(d);
    let three = decimal(b) + seq!['.'] + two;
    let s = decimal(a) + seq!['.'] + three;
    assert forall|i: int| 0 <= i < s.len() implies #[trigger] s[i] != '/' by {
        let la = decimal(a).len() as int;
        let lb = decimal(b).len() as int;
        let lc = decimal(c).len() as int;
        if i < la {
            assert(s[i] == decimal(a)[i]);
        } else if i > la {
            let j = i - la - 1;
            assert(s[i] == three[j]);
            if j < lb {
                assert(three[j] == decimal(b)[j]);
            } else if j > lb {
                let k = j - lb - 1;
                assert(three[j] == two[k]);
                if k < lc {
                    assert(two[k] == decimal(c)[k]);
                } else if k > lc {
                    assert(two[k] == decimal(d)[k - lc - 1]);
                }
            }
        }
    }
}

proof fn lemma_four_parts(a: Seq<char>, b: Seq<char>, c: Seq<char>, d: Seq<char>)
    requires
        forall|i: int| 0 <= i < a.len() ==> #[trigger] a[i] != '.',
        forall|i: int| 0 <= i < b.len() ==> #[trigger] b[i] != '.',
        forall|i: int| 0 <= i < c.len() ==> #[trigger] c[i] != '.',
        forall|i: int| 0 <= i < d.len() ==> #[trigger] d[i] != '.',
    ensures
        split_char(a + seq!['.'] + (b + seq!['.'] + (c + seq!['.'] + d)), '.') == seq![a, b, c, d],
{
    let two = c + seq!['.'] + d;
    let three = b + seq!['.'] + two;
    law_split_undoes_join(a, '.', three);
    law_split_undoes_join(b, '.', two);
    law_split_undoes_join(c, '.', d);
    law_split_undoes_join(d, '.', Seq::empty());
    assert(seq![a] + (seq![b] + (seq![c] + seq![d])) =~= seq![a, b, c, d]);
}

/// The text of an address with four numbers up to 255 is read as the number whose
/// four bytes they are, most significant first.
pub proof fn law_address_is_read(a: nat, b: nat, c: nat, d: nat)
    requires
        a <= 255,
        b <= 255,
        c <= 255,
        d <= 255,
    ensures
        ipv4_value(dotted(a, b, c, d)) == Some(((a * 256 + b) * 256 + c) * 256 + d),
        forall|i: int| 0 <= i < dotted(a, b, c, d).len() ==> #[trigger] dotted(a, b, c, d)[i] != '/',
{
    let p = seq![decimal(a), decimal(b), decimal(c), decimal(d)];
    assert(split_char(dotted(a, b, c, d), '.') == p) by {
        lemma_octet_text(a);
        lemma_octet_text(b);
        lemma_octet_text(c);
        lemma_octet_text(d);
        lemma_four_parts(decimal(a), decimal(b), decimal(c), decimal(d));
    }
    assert(octet(p[0]) == Some(a)) by {
        lemma_octet_text(a);
    }
    assert(octet(p[1]) == Some(b)) by {
        lemma_octet_text(b);
    }
    assert(octet(p[2]) == Some(c)) by {
        lemma_octet_text(c);
    }
    assert(octet(p[3]) == Some(d)) by {
        lemma_octet_text(d);
    }
    lemma_dotted_has_no_slash(a, b, c, d);
}

/// A range written as an address, a slash and a prefix length is read where the
/// length is at most 32: it is the range of that many leading bits which holds the
/// address. Longer prefixes are refused.
pub proof fn law_range_is_read(a: nat, b: nat, c: nat, d: nat, p: nat)
    requires
        a <= 255,
        b <= 255,
        c <= 255,
        d <= 255,
    ensures
        ({
            let text = dotted(a, b, c, d) + seq!['/'] + decimal(p);
            let addr = ((a * 256 + b) * 256 + c) * 256 + d;
            &&& p > 32 ==> cidr_value(text) is None
            &&& p <= 32 ==> cidr_value(text) is Some && (cidr_value(text)->0).1 == p && in_range(
                addr as int,
                cidr_value(text)->0,
            ) && (cidr_value(text)->0).0 % block_size(p) == 0
        }),
{
    let ip = dotted(a, b, c, d);
    let text = ip + seq!['/'] + decimal(p);
    law_address_is_read(a, b, c, d);
    law_split_undoes_join(ip, '/', decimal(p));
    law_decimal_is_read_back(p, 0xffff_ffff);
    lemma_block_positive(p);
    lemma_aligned(text);
    if p <= 32 {
        let addr = ((a * 256 + b) * 256 + c) * 256 + d;
        let size = block_size(p);
        lemma_mod_decreases(addr, size);
        assert(0 <= addr % size < size) by (nonlinear_arith)
            requires
                size >= 1,
        ;
    }
}

/// A range with a prefix length of 32 holds one address, and one bit less doubles
/// the addresses.
pub proof fn law_range_sizes(p: nat)
    ensures
        block_size(32) == 1,
        p < 32 ==> block_size(p) == 2 * block_size(p + 1),
{
}

/// Two ranges that are written out overlap exactly where the address of one lies
/// in the range of the other.
pub proof fn law_overlap_means_containment(x: &str, y: &str, r: bool, a: (nat, nat), b: (nat, nat))
    requires
        call_ensures(cidrs_overlap, (x, y), r),
        cidr_value(x@) == Some(a),
        cidr_value(y@) == Some(b),
    ensures
        r <==> ((a.0 <= b.0 && b.0 < a.0 + block_size(a.1)) || (b.0 <= a.0 && a.0 < b.0
            + block_size(b.1))),
{
    lemma_block_positive(a.1);
    lemma_block_positive(b.1);
    if ranges_meet(x@, y@) {
        let addr = choose|addr: int| #[trigger] in_range(addr, a) && in_range(addr, b);
        assert(in_range(addr, a) && in_range(addr, b));
        assert(a.0 <= addr && b.0 <= addr);
        assert(a.0 <= b.0 || b.0 <= a.0);
    }
    if a.0 <= b.0 && b.0 < a.0 + block_size(a.1) {
        assert(in_range(b.0 as int, a) && in_range(b.0 as int, b));
        assert(in_range(b.0 as int, cidr_value(x@)->0) && in_range(
            b.0 as int,
            cidr_value(y@)->0,
        ));
    }
    if b.0 <= a.0 && a.0 < b.0 + block_size(b.1) {
        assert(in_range(a.0 as int, a) && in_range(a.0 as int, b));
        assert(in_range(a.0 as int, cidr_value(x@)->0) && in_range(
            a.0 as int,
            cidr_value(y@)->0,
        ));
    }
}

/// What is no range overlaps nothing.
pub proof fn law_no_range_no_overlap(x: &str, y: &str, r: bool)
    requires
        call_ensures(cidrs_overlap, (x, y), r),
        cidr_value(x@) is None || cidr_value(y@) is None,
    ensures
        !r,
{
}

} // verus!
