//! Splitting text: at a separator, into words, into lines, and trimming.
use vstd::prelude::*;
use vstd::string::*;
use crate::text::{chars_of, match_at};
#[allow(unused_imports)]
use crate::text::occurs_at;

verus! {

/// The position of the first `c` in `s`, or the length of `s`.
pub open spec fn find_char(s: Seq<char>, c: char) -> int
    decreases s.len(),
{
    if s.len() == 0 {
        0
    } else if s[0] == c {
        0
    } else {
        1 + find_char(s.skip(1), c)
    }
}

/// The pieces of `s` between the occurrences of `c`.
pub open spec fn split_char(s: Seq<char>, c: char) -> Seq<Seq<char>>
    decreases s.len(),
{
    let i = find_char(s, c);
    if 0 <= i < s.len() {
        seq![s.take(i)] + split_char(s.skip(i + 1), c)
    } else {
        seq![s]
    }
}

proof fn lemma_find_char(s: Seq<char>, c: char)
    ensures
        0 <= find_char(s, c) <= s.len(),
        forall|j: int| 0 <= j < find_char(s, c) ==> s[j] != c,
        find_char(s, c) < s.len() ==> s[find_char(s, c)] == c,
    decreases s.len(),
{
    if s.len() > 0 && s[0] != c {
        lemma_find_char(s.skip(1), c);
        assert forall|j: int| 0 <= j < find_char(s, c) implies s[j] != c by {
            if j > 0 {
                assert(s.skip(1)[j - 1] == s[j]);
            }
        }
    }
}

proof fn lemma_find_char_unique(s: Seq<char>, c: char, i: int)
    requires
        0 <= i <= s.len(),
        forall|j: int| 0 <= j < i ==> s[j] != c,
        i < s.len() ==> s[i] == c,
    ensures
        find_char(s, c) == i,
{
    lemma_find_char(s, c);
}

/// The position of the first `c` at or after `from`.
fn find_from(cs: &Vec<char>, c: char, from: usize) -> (r: usize)
    requires
        from <= cs@.len(),
    ensures
        from <= r <= cs@.len(),
        r == from + find_char(cs@.skip(from as int), c),
{
    let mut i: usize = from;
    while i < cs.len()
        invariant
            from <= i <= cs.len(),
            forall|j: int| from <= j < i ==> cs@[j] != c,
        decreases cs@.len() - i,
    {
        if cs[i] == c {
            proof {
                lemma_find_char_unique(cs@.skip(from as int), c, i - from);
            }
            return i;
        }
        i = i + 1;
    }
    proof {
        lemma_find_char_unique(cs@.skip(from as int), c, i - from);
    }
    i
}

/// Splits at every occurrence of `c`.
pub fn split_on(s: &str, c: char) -> (r: Vec<String>)
    ensures
        r.deep_view() == split_char(s@, c),
{
    let cs: Vec<char> = chars_of(s);
    let mut out: Vec<String> = Vec::new();
    let mut from: usize = 0;
    assert(s@.skip(0) =~= s@);
    assert(out.deep_view() + split_char(s@.skip(0), c) =~= split_char(s@, c));
    loop
        invariant
            from <= cs@.len(),
            cs@ == s@,
            out.deep_view() + split_char(s@.skip(from as int), c) == split_char(s@, c),
        decreases cs@.len() - from,
    {
        let i: usize = find_from(&cs, c, from);
        let ghost rest = s@.skip(from as int);
        let ghost before = out.deep_view();
        let piece: String = s.substring_char(from, i).to_owned();
        assert(piece@ =~= rest.take(i - from));
        out.push(piece);
        assert(out.deep_view() =~= before.push(rest.take(i - from)));
        if i == cs.len() {
            assert(rest.take(i - from) =~= rest);
            assert(out.deep_view() =~= before + split_char(rest, c));
            return out;
        }
        assert(rest.skip(i - from + 1) =~= s@.skip(i + 1));
        assert(out.deep_view() + split_char(s@.skip(i + 1), c) =~= before + split_char(rest, c));
        from = i + 1;
    }
}

/// The two parts of `s` around the first `c`.
pub open spec fn split_first(s: Seq<char>, c: char) -> Option<(Seq<char>, Seq<char>)> {
    let i = find_char(s, c);
    if 0 <= i < s.len() {
        Some((s.take(i), s.skip(i + 1)))
    } else {
        None
    }
}

/// Splits at the first occurrence of `c`.
pub fn split_once(s: &str, c: char) -> (r: Option<(String, String)>)
    ensures
        r.deep_view() == split_first(s@, c),
{
    let cs: Vec<char> = chars_of(s);
    assert(s@.skip(0) =~= s@);
    let i: usize = find_from(&cs, c, 0);
    if i == cs.len() {
        None
    } else {
        let a: String = s.substring_char(0, i).to_owned();
        let b: String = s.substring_char(i + 1, cs.len()).to_owned();
        assert(a@ =~= s@.take(i as int));
        assert(b@ =~= s@.skip(i + 1));
        Some((a, b))
    }
}

/// What precedes the first `c`, or all of `s` where there is none.
pub open spec fn before_char(s: Seq<char>, c: char) -> Seq<char> {
    s.take(find_char(s, c))
}

/// Takes what precedes the first `c`.
pub fn take_before(s: &str, c: char) -> (r: String)
    ensures
        r@ == before_char(s@, c),
{
    let cs: Vec<char> = chars_of(s);
    assert(s@.skip(0) =~= s@);
    let i: usize = find_from(&cs, c, 0);
    assert(s@.subrange(0, i as int) =~= s@.take(i as int));
    s.substring_char(0, i).to_owned()
}

// ---------------------------------------------------------------------------
// Whitespace
// ---------------------------------------------------------------------------

/// The characters with the Unicode property White_Space.
pub open spec fn is_space(c: char) -> bool {
    let u = c as u32;
    ||| 0x09 <= u <= 0x0d
    ||| u == 0x20
    ||| u == 0x85
    ||| u == 0xa0
    ||| u == 0x1680
    ||| 0x2000 <= u <= 0x200a
    ||| u == 0x2028
    ||| u == 0x2029
    ||| u == 0x202f
    ||| u == 0x205f
    ||| u == 0x3000
}

/// Decides whether a character is whitespace.
pub fn space(c: char) -> (r: bool)
    ensures
        r == is_space(c),
{
    let u: u32 = c as u32;
    (0x09 <= u && u <= 0x0d) || u == 0x20 || u == 0x85 || u == 0xa0 || u == 0x1680 || (0x2000 <= u
        && u <= 0x200a) || u == 0x2028 || u == 0x2029 || u == 0x202f || u == 0x205f || u == 0x3000
}

/// `s` without leading whitespace.
pub open spec fn trim_left(s: Seq<char>) -> Seq<char>
    decreases s.len(),
{
    if s.len() > 0 && is_space(s[0]) {
        trim_left(s.skip(1))
    } else {
        s
    }
}

/// `s` without trailing whitespace.
pub open spec fn trim_right(s: Seq<char>) -> Seq<char>
    decreases s.len(),
{
    if s.len() > 0 && is_space(s.last()) {
        trim_right(s.drop_last())
    } else {
        s
    }
}

/// `s` without leading and trailing whitespace.
pub open spec fn trimmed(s: Seq<char>) -> Seq<char> {
    trim_right(trim_left(s))
}

/// Removes leading and trailing whitespace.
pub fn trim(s: &str) -> (r: String)
    ensures
        r@ == trimmed(s@),
{
    let cs: Vec<char> = chars_of(s);
    let mut a: usize = 0;
    assert(s@.skip(0) =~= s@);
    while a < cs.len() && space(cs[a])
        invariant
            a <= cs@.len(),
            cs@ == s@,
            trim_left(s@) == trim_left(s@.skip(a as int)),
        decreases cs@.len() - a,
    {
        assert(s@.skip(a as int).skip(1) =~= s@.skip(a + 1));
        a = a + 1;
    }
    let ghost left = s@.skip(a as int);
    assert(trim_left(s@) == left);
    let mut b: usize = cs.len();
    assert(s@.subrange(a as int, b as int) =~= left);
    while b > a && space(cs[b - 1])
        invariant
            a <= b <= cs@.len(),
            cs@ == s@,
            trim_right(left) == trim_right(s@.subrange(a as int, b as int)),
        decreases b,
    {
        assert(s@.subrange(a as int, b as int).drop_last() =~= s@.subrange(a as int, b - 1));
        b = b - 1;
    }
    s.substring_char(a, b).to_owned()
}

/// The length of the run of non-whitespace at the start of `s`.
pub open spec fn word_len(s: Seq<char>) -> int
    decreases s.len(),
{
    if s.len() == 0 || is_space(s[0]) {
        0
    } else {
        1 + word_len(s.skip(1))
    }
}

/// The maximal runs of non-whitespace in `s`.
pub open spec fn words(s: Seq<char>) -> Seq<Seq<char>>
    decreases s.len(),
{
    if s.len() == 0 {
        Seq::empty()
    } else if is_space(s[0]) {
        words(s.skip(1))
    } else if 1 <= word_len(s) <= s.len() {
        seq![s.take(word_len(s))] + words(s.skip(word_len(s)))
    } else {
        Seq::empty()
    }
}

proof fn lemma_word_len(s: Seq<char>, k: int)
    requires
        0 <= k <= s.len(),
        forall|j: int| 0 <= j < k ==> !is_space(#[trigger] s[j]),
        k < s.len() ==> is_space(s[k]),
    ensures
        word_len(s) == k,
    decreases s.len(),
{
    if k > 0 {
        assert(!is_space(s[0]));
        assert forall|j: int| 0 <= j < k - 1 implies !is_space(#[trigger] s.skip(1)[j]) by {
            assert(s.skip(1)[j] == s[j + 1]);
        }
        lemma_word_len(s.skip(1), k - 1);
    }
}

/// Splits into words separated by whitespace.
pub fn split_whitespace(s: &str) -> (r: Vec<String>)
    ensures
        r.deep_view() == words(s@),
{
    let cs: Vec<char> = chars_of(s);
    let mut out: Vec<String> = Vec::new();
    let mut i: usize = 0;
    assert(s@.skip(0) =~= s@);
    assert(out.deep_view() + words(s@) =~= words(s@));
    while i < cs.len()
        invariant
            i <= cs@.len(),
            cs@ == s@,
            out.deep_view() + words(s@.skip(i as int)) == words(s@),
        decreases cs@.len() - i,
    {
        let ghost rest = s@.skip(i as int);
        if space(cs[i]) {
            assert(rest.skip(1) =~= s@.skip(i + 1));
            i = i + 1;
        } else {
            let mut k: usize = i;
            while k < cs.len() && !space(cs[k])
                invariant
                    i <= k <= cs@.len(),
                    cs@ == s@,
                    forall|j: int| i <= j < k ==> !is_space(#[trigger] cs@[j]),
                decreases cs@.len() - k,
            {
                k = k + 1;
            }
            proof {
                assert forall|j: int| 0 <= j < k - i implies !is_space(#[trigger] rest[j]) by {
                    assert(rest[j] == cs@[i + j]);
                }
                lemma_word_len(rest, k - i);
                if k == i {
                    assert(!is_space(cs@[i as int]));
                }
            }
            let ghost before = out.deep_view();
            let w: String = s.substring_char(i, k).to_owned();
            assert(w@ =~= rest.take(k - i));
            out.push(w);
            assert(out.deep_view() =~= before.push(rest.take(k - i)));
            assert(rest.skip(k - i) =~= s@.skip(k as int));
            assert(out.deep_view() + words(s@.skip(k as int)) =~= before + words(rest));
            i = k;
        }
    }
    assert(s@.skip(i as int) =~= Seq::<char>::empty());
    assert(out.deep_view() + Seq::<Seq<char>>::empty() =~= out.deep_view());
    out
}

// ---------------------------------------------------------------------------
// Lines
// ---------------------------------------------------------------------------

/// A line without the carriage return before its end.
pub open spec fn chomp(s: Seq<char>) -> Seq<char> {
    if s.len() > 0 && s.last() == '\r' {
        s.drop_last()
    } else {
        s
    }
}

/// The lines of `s`: what stands before each line feed, without a carriage
/// return before it, and what follows the last line feed where that is not
/// empty.
pub open spec fn lines_of(s: Seq<char>) -> Seq<Seq<char>>
    decreases s.len(),
{
    let i = find_char(s, '\n');
    if 0 <= i < s.len() {
        seq![chomp(s.take(i))] + lines_of(s.skip(i + 1))
    } else if s.len() == 0 {
        Seq::empty()
    } else {
        seq![s]
    }
}

/// Splits into lines.
pub fn lines(s: &str) -> (r: Vec<String>)
    ensures
        r.deep_view() == lines_of(s@),
{
    let cs: Vec<char> = chars_of(s);
    let mut out: Vec<String> = Vec::new();
    let mut from: usize = 0;
    assert(s@.skip(0) =~= s@);
    assert(out.deep_view() + lines_of(s@) =~= lines_of(s@));
    while from < cs.len()
        invariant
            from <= cs@.len(),
            cs@ == s@,
            out.deep_view() + lines_of(s@.skip(from as int)) == lines_of(s@),
        decreases cs@.len() - from,
    {
        let i: usize = find_from(&cs, '\n', from);
        let ghost rest = s@.skip(from as int);
        let ghost before = out.deep_view();
        if i == cs.len() {
            let piece: String = s.substring_char(from, i).to_owned();
            assert(piece@ =~= rest);
            out.push(piece);
            assert(out.deep_view() =~= before + lines_of(rest));
            return out;
        }
        let end: usize = if i > from && cs[i - 1] == '\r' {
            i - 1
        } else {
            i
        };
        let piece: String = s.substring_char(from, end).to_owned();
        assert(rest.take(i - from).drop_last() =~= rest.take(i - from - 1) || i == from);
        assert(piece@ =~= chomp(rest.take(i - from)));
        out.push(piece);
        assert(out.deep_view() =~= before.push(chomp(rest.take(i - from))));
        assert(rest.skip(i - from + 1) =~= s@.skip(i + 1));
        assert(out.deep_view() + lines_of(s@.skip(i + 1)) =~= before + lines_of(rest));
        from = i + 1;
    }
    assert(s@.skip(from as int) =~= Seq::<char>::empty());
    assert(out.deep_view() + Seq::<Seq<char>>::empty() =~= out.deep_view());
    out
}

/// The last `n` elements of a sequence, or all of them where there are fewer.
pub open spec fn last_of<A>(s: Seq<A>, n: int) -> Seq<A> {
    if s.len() <= n {
        s
    } else {
        s.skip(s.len() - n)
    }
}

/// The last `n` lines of a text, in order.
pub fn tail_lines(s: &str, n: usize) -> (r: Vec<String>)
    ensures
        r.deep_view() == last_of(lines_of(s@), n as int),
{
    let all: Vec<String> = lines(s);
    let start: usize = if all.len() <= n {
        0
    } else {
        all.len() - n
    };
    let mut out: Vec<String> = Vec::new();
    let mut i: usize = start;
    while i < all.len()
        invariant
            start <= i <= all@.len(),
            out.deep_view() == all.deep_view().subrange(start as int, i as int),
        decreases all@.len() - i,
    {
        let ghost before = out.deep_view();
        out.push(all[i].clone());
        assert(out.deep_view() =~= before.push(all@[i as int]@));
        assert(all.deep_view()[i as int] == all@[i as int].deep_view());
        assert(out.deep_view() =~= all.deep_view().subrange(start as int, i + 1));
        i = i + 1;
    }
    assert(out.deep_view() =~= last_of(all.deep_view(), n as int));
    out
}

// ---------------------------------------------------------------------------
// Separators of several characters
// ---------------------------------------------------------------------------

/// The position of the first occurrence of `p` in `s` at or after `from`, or
/// the length of `s`.
pub open spec fn find_text(s: Seq<char>, p: Seq<char>, from: int) -> int
    decreases s.len() - from,
{
    if from >= s.len() {
        s.len() as int
    } else if occurs_at(s, p, from) {
        from
    } else {
        find_text(s, p, from + 1)
    }
}

/// The piece of `s` between the first and the second occurrence of the
/// non-empty separator `p`, or to the end where there is no second one.
pub open spec fn second_piece(s: Seq<char>, p: Seq<char>) -> Option<Seq<char>> {
    let i = find_text(s, p, 0);
    if i < s.len() {
        Some(s.subrange(i + p.len(), find_text(s, p, i + p.len())))
    } else {
        None
    }
}

fn find_text_from(s: &Vec<char>, p: &Vec<char>, from: usize) -> (r: usize)
    requires
        from <= s@.len(),
    ensures
        from <= r <= s@.len(),
        r == find_text(s@, p@, from as int),
        r < s@.len() ==> occurs_at(s@, p@, r as int),
{
    let mut i: usize = from;
    while i < s.len()
        invariant
            from <= i <= s@.len(),
            find_text(s@, p@, from as int) == find_text(s@, p@, i as int),
        decreases s@.len() - i,
    {
        if match_at(s, p, i) {
            return i;
        }
        i = i + 1;
    }
    i
}

/// Takes the piece after the first separator.
pub fn piece_after(s: &str, p: &str) -> (r: Option<String>)
    requires
        p@.len() > 0,
    ensures
        r.deep_view() == second_piece(s@, p@),
{
    let cs: Vec<char> = chars_of(s);
    let ps: Vec<char> = chars_of(p);
    let i: usize = find_text_from(&cs, &ps, 0);
    if i == cs.len() {
        None
    } else {
        let a: usize = i + ps.len();
        let b: usize = find_text_from(&cs, &ps, a);
        Some(s.substring_char(a, b).to_owned())
    }
}

/// The elements joined by a separator.
pub open spec fn joined(parts: Seq<Seq<char>>, sep: Seq<char>) -> Seq<char>
    decreases parts.len(),
{
    if parts.len() == 0 {
        Seq::empty()
    } else if parts.len() == 1 {
        parts[0]
    } else {
        joined(parts.drop_last(), sep) + sep + parts.last()
    }
}

/// Joins strings with a separator.
pub fn join(parts: &Vec<String>, sep: &str) -> (r: String)
    ensures
        r@ == joined(parts.deep_view(), sep@),
{
    let mut out: String = String::new();
    let ghost all = parts.deep_view();
    let mut i: usize = 0;
    assert(all.take(0) =~= Seq::<Seq<char>>::empty());
    while i < parts.len()
        invariant
            i <= parts@.len(),
            all == parts.deep_view(),
            out@ == joined(all.take(i as int), sep@),
        decreases parts@.len() - i,
    {
        assert(all.take(i + 1).drop_last() =~= all.take(i as int));
        assert(all[i as int] == parts@[i as int]@);
        if i > 0 {
            out.append(sep);
        } else {
            assert(out@ =~= Seq::<char>::empty());
        }
        out.append(parts[i].as_str());
        assert(out@ =~= joined(all.take(i + 1), sep@));
        i = i + 1;
    }
    assert(all.take(i as int) =~= all);
    out
}

/// A text that begins with a run of non-whitespace, followed by whitespace or by
/// nothing, has that run as its first word.
pub proof fn law_first_word(w: Seq<char>, rest: Seq<char>)
    requires
        w.len() > 0,
        forall|i: int| 0 <= i < w.len() ==> !is_space(#[trigger] w[i]),
        rest.len() > 0 ==> is_space(rest[0]),
    ensures
        words(w + rest).len() > 0,
        words(w + rest)[0] == w,
{
    let s = w + rest;
    assert forall|j: int| 0 <= j < w.len() implies !is_space(#[trigger] s[j]) by {
        assert(s[j] == w[j]);
    }
    lemma_word_len(s, w.len() as int);
    assert(s.take(w.len() as int) =~= w);
    assert(!is_space(s[0]));
}

/// Splitting undoes joining: a piece without the separator, the separator and a
/// rest are split into the piece and the pieces of the rest; and at the first
/// separator into the piece and the rest.
pub proof fn law_split_undoes_join(a: Seq<char>, c: char, b: Seq<char>)
    requires
        forall|i: int| 0 <= i < a.len() ==> #[trigger] a[i] != c,
    ensures
        split_char(a + seq![c] + b, c) == seq![a] + split_char(b, c),
        split_char(a, c) == seq![a],
        split_first(a + seq![c] + b, c) == Some((a, b)),
        split_first(a, c) is None,
        before_char(a + seq![c] + b, c) == a,
        before_char(a, c) == a,
{
    let s = a + seq![c] + b;
    let n = a.len() as int;
    assert forall|j: int| 0 <= j < n implies s[j] != c by {
        assert(s[j] == a[j]);
    }
    assert(s[n] == c);
    lemma_find_char_unique(s, c, n);
    lemma_find_char_unique(a, c, n);
    assert(s.take(n) =~= a);
    assert(s.skip(n + 1) =~= b);
    assert(a.take(n) =~= a);
}

/// A text without the spaces around it: what is left begins and ends with no space,
/// and only spaces were left out, before it and after it.
pub proof fn law_trimming(s: &str, r: String) -> (cut: (int, int))
    requires
        call_ensures(trim, (s,), r),
    ensures
        0 <= cut.0 <= cut.1 <= s@.len(),
        r@ == s@.subrange(cut.0, cut.1),
        forall|i: int| 0 <= i < cut.0 || cut.1 <= i < s@.len() ==> is_space(#[trigger] s@[i]),
        r@.len() > 0 ==> !is_space(r@.first()) && !is_space(r@.last()),
{
    let a = lemma_trim_left(s@);
    let t = trim_left(s@);
    let b = lemma_trim_right(t);
    assert(r@ =~= s@.subrange(a, a + b));
    assert forall|i: int| 0 <= i < a || a + b <= i < s@.len() implies is_space(#[trigger] s@[i]) by {
        if a + b <= i {
            assert(t[i - a] == s@[i]);
        }
    }
    if r@.len() > 0 {
        assert(r@.first() == t[0]);
    }
    (a, a + b)
}

proof fn lemma_trim_left(s: Seq<char>) -> (n: int)
    ensures
        0 <= n <= s.len(),
        trim_left(s) == s.skip(n),
        forall|i: int| 0 <= i < n ==> is_space(#[trigger] s[i]),
        n < s.len() ==> !is_space(s[n]),
    decreases s.len(),
{
    if s.len() > 0 && is_space(s[0]) {
        let m = lemma_trim_left(s.skip(1));
        assert(s.skip(1).skip(m) =~= s.skip(m + 1));
        assert forall|i: int| 0 <= i < m + 1 implies is_space(#[trigger] s[i]) by {
            if i > 0 {
                assert(s.skip(1)[i - 1] == s[i]);
            }
        }
        m + 1
    } else {
        assert(s.skip(0) =~= s);
        0
    }
}

proof fn lemma_trim_right(s: Seq<char>) -> (n: int)
    ensures
        0 <= n <= s.len(),
        trim_right(s) == s.take(n),
        forall|i: int| n <= i < s.len() ==> is_space(#[trigger] s[i]),
        n > 0 ==> !is_space(s[n - 1]),
    decreases s.len(),
{
    if s.len() > 0 && is_space(s.last()) {
        let m = lemma_trim_right(s.drop_last());
        assert(s.drop_last().take(m) =~= s.take(m));
        assert forall|i: int| m <= i < s.len() implies is_space(#[trigger] s[i]) by {
            if i < s.len() - 1 {
                assert(s.drop_last()[i] == s[i]);
            }
        }
        m
    } else {
        assert(s.take(s.len() as int) =~= s);
        s.len() as int
    }
}

/// A blank, a tab and the ends of lines are spaces; no letter, digit or sign of ASCII
/// is one.
pub proof fn law_spaces(c: char, r: bool)
    requires
        call_ensures(space, (c,), r),
    ensures
        c == ' ' || c == '\t' || c == '\n' || c == '\r' ==> r,
        '!' <= c <= '~' ==> !r,
{
}

/// Spaces before a word do not count, and a space ends it.
pub proof fn law_words_are_between_spaces(w: Seq<char>, c: char, rest: Seq<char>)
    requires
        w.len() > 0,
        forall|i: int| 0 <= i < w.len() ==> !is_space(#[trigger] w[i]),
        is_space(c),
    ensures
        words(w) == seq![w],
        words(seq![c] + rest) == words(rest),
        words(w + seq![c] + rest) == seq![w] + words(rest),
{
    lemma_word_ends(w, Seq::empty());
    assert(w + Seq::<char>::empty() =~= w);
    assert(w.take(w.len() as int) =~= w);
    assert(w.skip(w.len() as int) =~= Seq::<char>::empty());
    assert(words(Seq::<char>::empty()) =~= Seq::<Seq<char>>::empty());
    assert(seq![w] + Seq::<Seq<char>>::empty() =~= seq![w]);
    assert(!is_space(w[0]));
    let t = seq![c] + rest;
    assert(t.skip(1) =~= rest);
    assert(t[0] == c);
    lemma_word_ends(w, t);
    assert(w + seq![c] + rest =~= w + t);
    assert((w + t).take(w.len() as int) =~= w);
    assert((w + t).skip(w.len() as int) =~= t);
    assert((w + t)[0] == w[0]);
}

proof fn lemma_word_ends(w: Seq<char>, t: Seq<char>)
    requires
        forall|i: int| 0 <= i < w.len() ==> !is_space(#[trigger] w[i]),
        t.len() > 0 ==> is_space(t[0]),
    ensures
        word_len(w + t) == w.len(),
    decreases w.len(),
{
    if w.len() == 0 {
        assert(w + t =~= t);
    } else {
        assert((w + t)[0] == w[0]);
        assert((w + t).skip(1) =~= w.skip(1) + t);
        assert forall|i: int| 0 <= i < w.skip(1).len() implies !is_space(#[trigger] w.skip(1)[i]) by {
            assert(w.skip(1)[i] == w[i + 1]);
        }
        lemma_word_ends(w.skip(1), t);
    }
}

/// A line ends with a newline, with or without a carriage return before it; the last
/// one needs none, and an empty text has no line.
pub proof fn law_lines(w: Seq<char>, rest: Seq<char>)
    requires
        !w.contains('\n'),
        w.len() > 0 ==> w.last() != '\r',
    ensures
        lines_of(w + seq!['\n'] + rest) == seq![w] + lines_of(rest),
        lines_of(w + seq!['\r', '\n'] + rest) == seq![w] + lines_of(rest),
        w.len() > 0 ==> lines_of(w) == seq![w],
        lines_of(Seq::empty()) == Seq::<Seq<char>>::empty(),
{
    let v = w + seq!['\r'];
    assert(!v.contains('\n')) by {
        assert forall|i: int| 0 <= i < v.len() implies v[i] != '\n' by {
            if i < w.len() {
                assert(w.contains(w[i]));
            }
        }
    }
    lemma_find_char_past(w, '\n', rest);
    lemma_find_char_past(v, '\n', rest);
    assert(w + seq!['\r', '\n'] + rest =~= v + seq!['\n'] + rest);
    assert((w + seq!['\n'] + rest).take(w.len() as int) =~= w);
    assert((w + seq!['\n'] + rest).skip(w.len() as int + 1) =~= rest);
    assert((v + seq!['\n'] + rest).take(v.len() as int) =~= v);
    assert((v + seq!['\n'] + rest).skip(v.len() as int + 1) =~= rest);
    assert(v.drop_last() =~= w);
    if w.len() > 0 {
        lemma_find_char_absent(w, '\n');
    }
}

proof fn lemma_find_char_absent(s: Seq<char>, c: char)
    requires
        !s.contains(c),
    ensures
        find_char(s, c) == s.len(),
    decreases s.len(),
{
    if s.len() > 0 {
        assert(s.contains(s[0]));
        assert forall|i: int| 0 <= i < s.skip(1).len() implies s.skip(1)[i] != c by {
            assert(s.contains(s[i + 1]));
        }
        lemma_find_char_absent(s.skip(1), c);
    }
}

proof fn lemma_find_char_past(s: Seq<char>, c: char, rest: Seq<char>)
    requires
        !s.contains(c),
    ensures
        find_char(s + seq![c] + rest, c) == s.len(),
    decreases s.len(),
{
    let t = s + seq![c] + rest;
    if s.len() == 0 {
        assert(t[0] == c);
    } else {
        assert(t[0] == s[0]);
        assert(s.contains(s[0]));
        assert(t.skip(1) =~= s.skip(1) + seq![c] + rest);
        assert forall|i: int| 0 <= i < s.skip(1).len() implies s.skip(1)[i] != c by {
            assert(s.contains(s[i + 1]));
        }
        lemma_find_char_past(s.skip(1), c, rest);
    }
}

/// Of the last lines there are as many as asked for, where there are so many, and they
/// stand at the end of the text in its order.
pub proof fn law_last_lines(s: &str, n: usize, all: Vec<String>, r: Vec<String>)
    requires
        call_ensures(lines, (s,), all),
        call_ensures(tail_lines, (s, n), r),
    ensures
        all.len() <= n ==> r.len() == all.len(),
        all.len() > n ==> r.len() == n,
        forall|i: int| 0 <= i < r.len() ==> (#[trigger] r[i])@ == all[all.len() - r.len() + i]@,
{
    assert(r.deep_view().len() == r.len());
    assert(all.deep_view().len() == all.len());
    assert forall|i: int| 0 <= i < r.len() implies (#[trigger] r[i])@ == all[all.len() - r.len() + i]@ by {
        assert(r.deep_view()[i] == r[i]@);
        assert(all.deep_view()[all.len() - r.len() + i] == all[all.len() - r.len() + i]@);
    }
}

} // verus!
