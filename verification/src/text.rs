//! Text primitives: comparison, searching, splitting and number rendering,
//! each stated over the sequence of characters that a string holds.
use vstd::prelude::*;
use vstd::string::*;

verus! {

// ---------------------------------------------------------------------------
// Characters and comparison
// ---------------------------------------------------------------------------

/// The characters of a string, in order.
pub fn chars_of(s: &str) -> (r: Vec<char>)
    ensures
        r@ == s@,
{
    let mut v: Vec<char> = Vec::new();
    for c in it: s.chars()
        invariant
            it.seq() == s@,
            v@ == s@.take(it.index() as int),
    {
        v.push(c);
    }
    assert(s@.take(s@.len() as int) =~= s@);
    v
}

/// Whether two strings hold the same characters.
pub fn str_eq(a: &str, b: &str) -> (r: bool)
    ensures
        r == (a@ == b@),
{
    a.to_owned() == b.to_owned()
}

/// Whether an optional string is present and equal to `b`.
pub fn opt_is(a: &Option<String>, b: &str) -> (r: bool)
    ensures
        r == (a.deep_view() == Some(b@)),
{
    match a {
        Some(x) => str_eq(x.as_str(), b),
        None => false,
    }
}

/// A copy of an optional string.
pub fn clone_opt(a: &Option<String>) -> (r: Option<String>)
    ensures
        r.deep_view() == a.deep_view(),
{
    match a {
        Some(x) => Some(x.clone()),
        None => None,
    }
}

/// The concatenation of two strings.
pub fn cat(a: &str, b: &str) -> (r: String)
    ensures
        r@ == a@ + b@,
{
    let mut s: String = a.to_owned();
    s.append(b);
    s
}

/// The concatenation of three strings.
pub fn cat3(a: &str, b: &str, c: &str) -> (r: String)
    ensures
        r@ == a@ + b@ + c@,
{
    let mut s: String = a.to_owned();
    s.append(b);
    s.append(c);
    s
}

/// The concatenation of four strings.
pub fn cat4(a: &str, b: &str, c: &str, d: &str) -> (r: String)
    ensures
        r@ == a@ + b@ + c@ + d@,
{
    let mut s: String = a.to_owned();
    s.append(b);
    s.append(c);
    s.append(d);
    s
}

/// The concatenation of five strings.
pub fn cat5(a: &str, b: &str, c: &str, d: &str, e: &str) -> (r: String)
    ensures
        r@ == a@ + b@ + c@ + d@ + e@,
{
    let mut s: String = a.to_owned();
    s.append(b);
    s.append(c);
    s.append(d);
    s.append(e);
    s
}

/// Character-wise lexicographic order, which is also the byte order of the
/// UTF-8 encodings.
pub open spec fn text_lt(a: Seq<char>, b: Seq<char>) -> bool
    decreases a.len(),
{
    if b.len() == 0 {
        false
    } else if a.len() == 0 {
        true
    } else if a[0] == b[0] {
        text_lt(a.drop_first(), b.drop_first())
    } else {
        a[0] < b[0]
    }
}

/// Decides the lexicographic order of two strings.
pub fn str_lt(a: &str, b: &str) -> (r: bool)
    ensures
        r == text_lt(a@, b@),
{
    let x: Vec<char> = chars_of(a);
    let y: Vec<char> = chars_of(b);
    let mut i: usize = 0;
    assert(a@.skip(0) =~= a@);
    assert(b@.skip(0) =~= b@);
    loop
        invariant
            i <= x@.len(),
            i <= y@.len(),
            x@ == a@,
            y@ == b@,
            text_lt(a@, b@) == text_lt(a@.skip(i as int), b@.skip(i as int)),
        decreases x@.len() - i,
    {
        if i >= y.len() {
            return false;
        }
        if i >= x.len() {
            return true;
        }
        if x[i] != y[i] {
            return x[i] < y[i];
        }
        assert(a@.skip(i as int).drop_first() =~= a@.skip(i + 1));
        assert(b@.skip(i as int).drop_first() =~= b@.skip(i + 1));
        i = i + 1;
    }
}

// ---------------------------------------------------------------------------
// Prefixes, suffixes and occurrences
// ---------------------------------------------------------------------------

/// Whether `p` occurs in `s` at position `i`.
pub open spec fn occurs_at(s: Seq<char>, p: Seq<char>, i: int) -> bool {
    0 <= i && i + p.len() <= s.len() && s.subrange(i, i + p.len()) =~= p
}

/// Whether `s` begins with `p`.
pub open spec fn has_prefix(s: Seq<char>, p: Seq<char>) -> bool {
    occurs_at(s, p, 0)
}

/// Whether `s` ends with `p`.
pub open spec fn has_suffix(s: Seq<char>, p: Seq<char>) -> bool {
    occurs_at(s, p, s.len() - p.len())
}

/// Whether `p` occurs anywhere in `s`.
pub open spec fn has_infix(s: Seq<char>, p: Seq<char>) -> bool {
    exists|i: int| occurs_at(s, p, i)
}

/// Decides whether `p` occurs in `s` at position `i`.
pub fn match_at(s: &Vec<char>, p: &Vec<char>, i: usize) -> (r: bool)
    ensures
        r == occurs_at(s@, p@, i as int),
{
    if i > s.len() || p.len() > s.len() - i {
        return false;
    }
    let mut k: usize = 0;
    while k < p.len()
        invariant
            k <= p@.len(),
            i + p.len() <= s.len(),
            forall|j: int| 0 <= j < k ==> s@[i + j] == p@[j],
        decreases p@.len() - k,
    {
        if s[i + k] != p[k] {
            assert(s@.subrange(i as int, i + p@.len())[k as int] == s@[i + k]);
            return false;
        }
        k = k + 1;
    }
    assert(s@.subrange(i as int, i + p@.len()) =~= p@);
    true
}

/// Decides whether `s` begins with `p`.
pub fn starts_with(s: &str, p: &str) -> (r: bool)
    ensures
        r == has_prefix(s@, p@),
{
    match_at(&chars_of(s), &chars_of(p), 0)
}

/// Decides whether `s` ends with `p`.
pub fn ends_with(s: &str, p: &str) -> (r: bool)
    ensures
        r == has_suffix(s@, p@),
{
    let x: Vec<char> = chars_of(s);
    let y: Vec<char> = chars_of(p);
    if y.len() > x.len() {
        return false;
    }
    match_at(&x, &y, x.len() - y.len())
}

/// Decides whether `p` occurs anywhere in `s`.
pub fn contains(s: &str, p: &str) -> (r: bool)
    ensures
        r == has_infix(s@, p@),
{
    let x: Vec<char> = chars_of(s);
    let y: Vec<char> = chars_of(p);
    let mut i: usize = 0;
    while i <= x.len()
        invariant
            i <= x@.len() + 1,
            x@ == s@,
            y@ == p@,
            forall|j: int| 0 <= j < i ==> !occurs_at(s@, p@, j),
        decreases x@.len() + 1 - i,
    {
        if match_at(&x, &y, i) {
            return true;
        }
        if i == x.len() {
            assert forall|j: int| !occurs_at(s@, p@, j) by {}
            return false;
        }
        i = i + 1;
    }
    false
}

/// What follows `p` in `s`, where `s` begins with `p`.
pub fn strip_prefix(s: &str, p: &str) -> (r: Option<String>)
    ensures
        match r {
            Some(t) => has_prefix(s@, p@) && t@ == s@.skip(p@.len() as int),
            None => !has_prefix(s@, p@),
        },
{
    if starts_with(s, p) {
        let n: usize = s.unicode_len();
        let k: usize = p.unicode_len();
        let t: String = s.substring_char(k, n).to_owned();
        assert(s@.subrange(k as int, n as int) =~= s@.skip(k as int));
        Some(t)
    } else {
        None
    }
}

/// `s` without all leading repetitions of `p`.
pub open spec fn without_leading(s: Seq<char>, p: Seq<char>) -> Seq<char>
    decreases s.len(),
{
    if p.len() > 0 && has_prefix(s, p) {
        without_leading(s.skip(p.len() as int), p)
    } else {
        s
    }
}

/// Removes all leading repetitions of `p`.
pub fn trim_start_matches(s: &str, p: &str) -> (r: String)
    requires
        p@.len() > 0,
    ensures
        r@ == without_leading(s@, p@),
    decreases s@.len(),
{
    match strip_prefix(s, p) {
        Some(t) => trim_start_matches(t.as_str(), p),
        None => s.to_owned(),
    }
}

/// `s` without all trailing repetitions of `p`.
pub open spec fn without_trailing(s: Seq<char>, p: Seq<char>) -> Seq<char>
    decreases s.len(),
{
    if p.len() > 0 && has_suffix(s, p) {
        without_trailing(s.take(s.len() - p.len()), p)
    } else {
        s
    }
}

/// Removes all trailing repetitions of `p`.
pub fn trim_end_matches(s: &str, p: &str) -> (r: String)
    requires
        p@.len() > 0,
    ensures
        r@ == without_trailing(s@, p@),
    decreases s@.len(),
{
    if ends_with(s, p) {
        let n: usize = s.unicode_len();
        let k: usize = p.unicode_len();
        let t: &str = s.substring_char(0, n - k);
        assert(s@.subrange(0, n - k) =~= s@.take(n - k));
        trim_end_matches(t, p)
    } else {
        s.to_owned()
    }
}

/// The first `n` characters of `s`, or all of them where there are fewer.
pub open spec fn head(s: Seq<char>, n: int) -> Seq<char> {
    if s.len() <= n {
        s
    } else {
        s.take(n)
    }
}

/// The first `n` characters of a string, or all of them where there are fewer.
pub fn first_chars(s: &str, n: usize) -> (r: String)
    ensures
        r@ == head(s@, n as int),
{
    let len: usize = s.unicode_len();
    if len <= n {
        s.to_owned()
    } else {
        assert(s@.subrange(0, n as int) =~= s@.take(n as int));
        s.substring_char(0, n).to_owned()
    }
}

/// How many bytes a character takes in UTF-8.
pub open spec fn char_width(c: char) -> int {
    if c <= '\u{7f}' {
        1
    } else if c <= '\u{7ff}' {
        2
    } else if c <= '\u{ffff}' {
        3
    } else {
        4
    }
}

/// How many characters make up the first `n` bytes of a text, or the whole of it
/// where it is shorter; none where byte `n` lies within a character.
pub open spec fn byte_cut(s: Seq<char>, n: int) -> Option<int>
    decreases s.len(),
{
    if s.len() == 0 || n == 0 {
        Some(0)
    } else if char_width(s[0]) > n {
        None
    } else {
        match byte_cut(s.skip(1), n - char_width(s[0])) {
            Some(k) => Some(k + 1),
            None => None,
        }
    }
}

/// The first `n` bytes of a string, or all of it where it is shorter; none where
/// byte `n` lies within a character.
pub fn first_bytes(s: &str, n: usize) -> (r: Option<String>)
    ensures
        r.deep_view() == match byte_cut(s@, n as int) {
            Some(k) => Some(s@.take(k)),
            None => None,
        },
{
    let cs: Vec<char> = chars_of(s);
    let mut left: usize = n;
    let mut i: usize = 0;
    assert(s@.skip(0) =~= s@);
    while i < cs.len() && left > 0
        invariant
            i <= cs@.len(),
            cs@ == s@,
            match byte_cut(s@.skip(i as int), left as int) {
                Some(k) => byte_cut(s@, n as int) == Some(i + k),
                None => byte_cut(s@, n as int) is None,
            },
        decreases cs@.len() - i,
    {
        let c: char = cs[i];
        let w: usize = if c <= '\u{7f}' {
            1
        } else if c <= '\u{7ff}' {
            2
        } else if c <= '\u{ffff}' {
            3
        } else {
            4
        };
        assert(s@.skip(i as int)[0] == c);
        assert(s@.skip(i as int).skip(1) =~= s@.skip(i + 1));
        if w > left {
            return None;
        }
        left = left - w;
        i = i + 1;
    }
    assert(byte_cut(s@, n as int) == Some(i as int));
    assert(s@.subrange(0, i as int) =~= s@.take(i as int));
    Some(s.substring_char(0, i).to_owned())
}

/// A text begins with another exactly where the other and something after it make it
/// up, and without the beginning that something is left.
pub proof fn law_beginnings(s: &str, p: &str, rest: Seq<char>, r: bool, left: Option<String>)
    requires
        call_ensures(starts_with, (s, p), r),
        call_ensures(strip_prefix, (s, p), left),
    ensures
        s@ == p@ + rest ==> r && left is Some && left->0@ == rest,
        r == (left is Some),
        r ==> s@ == p@ + left->0@,
{
    if s@ == p@ + rest {
        assert(s@.subrange(0, p@.len() as int) =~= p@);
        assert(s@.skip(p@.len() as int) =~= rest);
    }
    if r {
        assert(s@ =~= s@.subrange(0, p@.len() as int) + s@.skip(p@.len() as int));
    }
}

/// A text ends with another exactly where something before it and the other make it up.
pub proof fn law_endings(s: &str, p: &str, before: Seq<char>, r: bool)
    requires
        call_ensures(ends_with, (s, p), r),
    ensures
        s@ == before + p@ ==> r,
        r ==> s@ == s@.take(s@.len() - p@.len()) + p@,
{
    if s@ == before + p@ {
        assert(s@.subrange(s@.len() - p@.len(), s@.len() as int) =~= p@);
    }
    if r {
        assert(s@ =~= s@.take(s@.len() - p@.len()) + s@.subrange(s@.len() - p@.len(), s@.len() as int));
    }
}

/// A text holds another exactly where it can be cut in three with the other in the
/// middle.
pub proof fn law_holding(s: &str, p: &str, before: Seq<char>, after: Seq<char>, r: bool) -> (at: int)
    requires
        call_ensures(contains, (s, p), r),
    ensures
        s@ == before + p@ + after ==> r,
        r ==> 0 <= at && at + p@.len() <= s@.len() && s@ == s@.take(at) + p@ + s@.skip(at + p@.len()),
{
    if s@ == before + p@ + after {
        assert(s@.subrange(before.len() as int, before.len() as int + p@.len()) =~= p@);
        assert(occurs_at(s@, p@, before.len() as int));
    }
    if r {
        let i = choose|i: int| occurs_at(s@, p@, i);
        assert(s@ =~= s@.take(i) + s@.subrange(i, i + p@.len()) + s@.skip(i + p@.len()));
        i
    } else {
        0
    }
}

/// Texts are ordered by the first character in which they differ, and one that goes on
/// where another ends comes after it.
pub proof fn law_texts_are_ordered(common: Seq<char>, x: char, a: Seq<char>, y: char, b: Seq<char>)
    ensures
        x != y ==> text_lt(common + seq![x] + a, common + seq![y] + b) == (x < y),
        text_lt(common, common + seq![x] + a),
        !text_lt(common + seq![x] + a, common),
        !text_lt(common, common),
    decreases common.len(),
{
    let s = common + seq![x] + a;
    let t = common + seq![y] + b;
    if common.len() == 0 {
        assert(s[0] == x && t[0] == y);
    } else {
        let c = common.drop_first();
        law_texts_are_ordered(c, x, a, y, b);
        assert(s.drop_first() =~= c + seq![x] + a);
        assert(t.drop_first() =~= c + seq![y] + b);
        assert(s[0] == common[0] && t[0] == common[0]);
    }
}

} // verus!
