//! Character-level text handling shared by the parsers and command builders.
//!
//! Every text value is modelled by its sequence of `char`s. The spec functions
//! here state what the `str` operations the parsers rely on (`lines`, `split`,
//! `splitn`, `trim`, `strip_prefix`, integer parsing) mean on such sequences,
//! and the executable functions compute them on `Vec<char>`.
use vstd::prelude::*;

verus! {

// ---------------------------------------------------------------------------
// Conversions between `str`/`String` and character vectors
// ---------------------------------------------------------------------------

/// Appends one character to a string (std's `String::push`).
#[verifier::external_body]
fn push_char(s: &mut String, c: char)
    ensures
        final(s)@ == old(s)@.push(c),
{
    s.push(c);
}

/// The characters of a string slice, in order.
pub fn chars_of(s: &str) -> (v: Vec<char>)
    ensures
        v@ == s@,
{
    broadcast use vstd::string::group_string_axioms;

    let mut v: Vec<char> = Vec::new();
    for c in it: s.chars()
        invariant
            it.seq() == s@,
            v@ == s@.take(it.index()),
    {
        assert(s@.take(it.index()).push(c) =~= s@.take(it.index() + 1));
        v.push(c);
    }
    assert(s@.take(s@.len() as int) =~= s@);
    v
}

/// The string made of the given characters.
pub fn string_of(v: &[char]) -> (s: String)
    ensures
        s@ == v@,
{
    let mut s = String::new();
    let mut i: usize = 0;
    while i < v.len()
        invariant
            i <= v@.len(),
            s@ == v@.take(i as int),
        decreases v@.len() - i,
    {
        push_char(&mut s, v[i]);
        assert(v@.take(i as int).push(v@[i as int]) =~= v@.take(i + 1));
        i = i + 1;
    }
    assert(v@.take(v@.len() as int) =~= v@);
    s
}

/// A string literal or other slice turned into an owned `String`.
pub fn owned(s: &str) -> (r: String)
    ensures
        r@ == s@,
{
    s.to_owned()
}

/// The characters `v[start..end]` as a new vector.
pub fn sub_vec(v: &[char], start: usize, end: usize) -> (r: Vec<char>)
    requires
        start <= end <= v@.len(),
    ensures
        r@ == v@.subrange(start as int, end as int),
{
    let mut r: Vec<char> = Vec::new();
    let mut i = start;
    while i < end
        invariant
            start <= i <= end <= v@.len(),
            r@ == v@.subrange(start as int, i as int),
        decreases end - i,
    {
        r.push(v[i]);
        assert(v@.subrange(start as int, i as int).push(v@[i as int]) =~= v@.subrange(
            start as int,
            i + 1,
        ));
        i = i + 1;
    }
    r
}

/// Concatenation of two character vectors.
pub fn concat(a: &[char], b: &[char]) -> (r: Vec<char>)
    ensures
        r@ == a@ + b@,
{
    let mut r: Vec<char> = Vec::new();
    let mut i: usize = 0;
    while i < a.len()
        invariant
            i <= a@.len(),
            r@ == a@.take(i as int),
        decreases a@.len() - i,
    {
        r.push(a[i]);
        assert(a@.take(i as int).push(a@[i as int]) =~= a@.take(i + 1));
        i = i + 1;
    }
    let mut j: usize = 0;
    while j < b.len()
        invariant
            i == a@.len(),
            j <= b@.len(),
            r@ == a@ + b@.take(j as int),
        decreases b@.len() - j,
    {
        r.push(b[j]);
        assert(a@ + b@.take(j as int) + seq![b@[j as int]] =~= a@ + b@.take(j + 1));
        j = j + 1;
    }
    assert(b@.take(b@.len() as int) =~= b@);
    r
}

// ---------------------------------------------------------------------------
// Searching
// ---------------------------------------------------------------------------

/// Index of the first occurrence of `c` in `s`, or -1 when there is none.
pub open spec fn index_of(s: Seq<char>, c: char) -> int
    decreases s.len(),
{
    if s.len() == 0 {
        -1
    } else if s[0] == c {
        0
    } else {
        let r = index_of(s.drop_first(), c);
        if r < 0 {
            -1
        } else {
            r + 1
        }
    }
}

/// `i` is the position of the first `c` in `s` (or `s.len()` when `c` does not occur).
pub proof fn lemma_index_of(s: Seq<char>, c: char, i: int)
    requires
        0 <= i <= s.len(),
        forall|j: int| 0 <= j < i ==> s[j] != c,
        i < s.len() ==> s[i] == c,
    ensures
        index_of(s, c) == (if i < s.len() {
            i
        } else {
            -1
        }),
    decreases s.len(),
{
    if s.len() > 0 && i > 0 {
        assert forall|j: int| 0 <= j < i - 1 implies s.drop_first()[j] != c by {
            assert(s.drop_first()[j] == s[j + 1]);
        }
        lemma_index_of(s.drop_first(), c, i - 1);
    }
}

/// Facts about a found index: it is in range, holds `c`, and nothing before it does.
pub proof fn lemma_index_of_facts(s: Seq<char>, c: char)
    ensures
        -1 <= index_of(s, c) < s.len(),
        index_of(s, c) >= 0 ==> s[index_of(s, c)] == c,
        forall|j: int| 0 <= j < s.len() && (index_of(s, c) < 0 || j < index_of(s, c)) ==> s[j] != c,
    decreases s.len(),
{
    if s.len() > 0 {
        lemma_index_of_facts(s.drop_first(), c);
        assert forall|j: int|
            0 <= j < s.len() && (index_of(s, c) < 0 || j < index_of(s, c)) implies s[j] != c by {
            if j > 0 {
                assert(s[j] == s.drop_first()[j - 1]);
            }
        }
    }
}

/// First index `i >= start` with `v[i] == c`, or `v.len()` when there is none.
pub fn find_from(v: &[char], start: usize, c: char) -> (i: usize)
    requires
        start <= v@.len(),
    ensures
        start <= i <= v@.len(),
        index_of(v@.skip(start as int), c) == (if i < v@.len() {
            i - start
        } else {
            -1
        }),
{
    let mut i = start;
    while i < v.len()
        invariant
            start <= i <= v@.len(),
            forall|j: int| start <= j < i ==> v@[j] != c,
        ensures
            start <= i <= v@.len(),
            forall|j: int| start <= j < i ==> v@[j] != c,
            i < v@.len() ==> v@[i as int] == c,
        decreases v@.len() - i,
    {
        if v[i] == c {
            break;
        }
        i = i + 1;
    }
    proof {
        let s = v@.skip(start as int);
        assert forall|j: int| 0 <= j < i - start implies s[j] != c by {
            assert(s[j] == v@[j + start]);
        }
        lemma_index_of(s, c, i - start);
    }
    i
}

// ---------------------------------------------------------------------------
// Prefixes and literal comparison
// ---------------------------------------------------------------------------

/// `p` is a prefix of `s`.
pub open spec fn has_prefix(s: Seq<char>, p: Seq<char>) -> bool {
    p.len() <= s.len() && s.take(p.len() as int) == p
}

/// `p` is a suffix of `s`.
pub open spec fn has_suffix(s: Seq<char>, p: Seq<char>) -> bool {
    p.len() <= s.len() && s.skip(s.len() - p.len()) == p
}

/// Whether `p` is a prefix of `v`.
pub fn starts_with(v: &[char], p: &[char]) -> (b: bool)
    ensures
        b == has_prefix(v@, p@),
{
    if p.len() > v.len() {
        return false;
    }
    let mut i: usize = 0;
    while i < p.len()
        invariant
            p@.len() <= v@.len(),
            i <= p@.len(),
            forall|j: int| 0 <= j < i ==> v@[j] == p@[j],
        decreases p@.len() - i,
    {
        if v[i] != p[i] {
            assert(v@.take(p@.len() as int)[i as int] != p@[i as int]);
            return false;
        }
        i = i + 1;
    }
    assert(v@.take(p@.len() as int) =~= p@);
    true
}

/// Whether `v` equals `p`.
pub fn eq_chars(v: &[char], p: &[char]) -> (b: bool)
    ensures
        b == (v@ == p@),
{
    if v.len() != p.len() {
        return false;
    }
    let r = starts_with(v, p);
    proof {
        if r {
            assert(v@ =~= v@.take(p@.len() as int));
        } else {
            assert(v@.take(p@.len() as int) =~= v@);
        }
    }
    r
}

/// Whether `v` equals the characters of `s`.
pub fn eq_str(v: &[char], s: &str) -> (b: bool)
    ensures
        b == (v@ == s@),
{
    let p = chars_of(s);
    eq_chars(v, p.as_slice())
}

/// Whether the characters of `s` are a prefix of `v`.
pub fn starts_with_str(v: &[char], s: &str) -> (b: bool)
    ensures
        b == has_prefix(v@, s@),
{
    let p = chars_of(s);
    starts_with(v, p.as_slice())
}

// ---------------------------------------------------------------------------
// Splitting
// ---------------------------------------------------------------------------

/// `s.split(c)`: the pieces between occurrences of `c` (always at least one piece).
pub open spec fn split_char(s: Seq<char>, c: char) -> Seq<Seq<char>>
    decreases s.len(),
{
    let i = index_of(s, c);
    if i < 0 || i >= s.len() {
        seq![s]
    } else {
        seq![s.take(i)] + split_char(s.skip(i + 1), c)
    }
}

/// `s.split_once(c)`: the parts before and after the first `c`.
pub open spec fn split_once(s: Seq<char>, c: char) -> Option<(Seq<char>, Seq<char>)> {
    let i = index_of(s, c);
    if i < 0 {
        None
    } else {
        Some((s.take(i), s.skip(i + 1)))
    }
}

/// Splits `v` on every occurrence of `c`, as `str::split` does.
pub fn split_on(v: &[char], c: char) -> (r: Vec<Vec<char>>)
    ensures
        r@.len() == split_char(v@, c).len(),
        forall|k: int| 0 <= k < r@.len() ==> #[trigger] r@[k]@ == split_char(v@, c)[k],
{
    let mut r: Vec<Vec<char>> = Vec::new();
    let mut start: usize = 0;
    let ghost mut done: Seq<Seq<char>> = seq![];
    assert(v@.skip(0) =~= v@);
    loop
        invariant
            start <= v@.len(),
            r@.len() == done.len(),
            forall|k: int| 0 <= k < r@.len() ==> #[trigger] r@[k]@ == done[k],
            split_char(v@, c) == done + split_char(v@.skip(start as int), c),
        decreases v@.len() - start,
    {
        let i = find_from(v, start, c);
        let ghost rest = v@.skip(start as int);
        proof {
            lemma_index_of_facts(rest, c);
        }
        if i < v.len() {
            let piece = sub_vec(v, start, i);
            proof {
                assert(piece@ =~= rest.take(i - start));
                assert(rest.skip(i - start + 1) =~= v@.skip(i + 1));
                done = done.push(piece@);
            }
            r.push(piece);
            start = i + 1;
        } else {
            let piece = sub_vec(v, start, v.len());
            proof {
                assert(piece@ =~= rest);
                done = done.push(piece@);
            }
            r.push(piece);
            assert(split_char(v@, c) =~= done);
            return r;
        }
    }
}

/// `s.splitn(n, c)` for `n >= 1`: at most `n` pieces, the last one holding the rest.
pub open spec fn splitn_char(s: Seq<char>, n: nat, c: char) -> Seq<Seq<char>>
    decreases n,
{
    if n <= 1 {
        seq![s]
    } else {
        match split_once(s, c) {
            None => seq![s],
            Some((a, b)) => seq![a] + splitn_char(b, (n - 1) as nat, c),
        }
    }
}

/// Splits `v` into at most `n` pieces on `c`, as `str::splitn` does.
pub fn splitn_on(v: &[char], n: usize, c: char) -> (r: Vec<Vec<char>>)
    requires
        n >= 1,
    ensures
        r@.len() == splitn_char(v@, n as nat, c).len(),
        forall|k: int| 0 <= k < r@.len() ==> #[trigger] r@[k]@ == splitn_char(v@, n as nat, c)[k],
{
    let mut r: Vec<Vec<char>> = Vec::new();
    let mut start: usize = 0;
    let mut left: usize = n;
    let ghost mut done: Seq<Seq<char>> = seq![];
    assert(v@.skip(0) =~= v@);
    loop
        invariant
            start <= v@.len(),
            left >= 1,
            r@.len() == done.len(),
            forall|k: int| 0 <= k < r@.len() ==> #[trigger] r@[k]@ == done[k],
            splitn_char(v@, n as nat, c) == done + splitn_char(
                v@.skip(start as int),
                left as nat,
                c,
            ),
        decreases left,
    {
        let ghost rest = v@.skip(start as int);
        if left == 1 {
            let piece = sub_vec(v, start, v.len());
            proof {
                assert(piece@ =~= rest);
                done = done.push(piece@);
            }
            r.push(piece);
            assert(splitn_char(v@, n as nat, c) =~= done);
            return r;
        }
        let i = find_from(v, start, c);
        proof {
            lemma_index_of_facts(rest, c);
        }
        if i < v.len() {
            let piece = sub_vec(v, start, i);
            proof {
                assert(piece@ =~= rest.take(i - start));
                assert(rest.skip(i - start + 1) =~= v@.skip(i + 1));
                done = done.push(piece@);
            }
            r.push(piece);
            start = i + 1;
            left = left - 1;
        } else {
            let piece = sub_vec(v, start, v.len());
            proof {
                assert(piece@ =~= rest);
                done = done.push(piece@);
            }
            r.push(piece);
            assert(splitn_char(v@, n as nat, c) =~= done);
            return r;
        }
    }
}

// ---------------------------------------------------------------------------
// Lines
// ---------------------------------------------------------------------------

/// Removes one trailing carriage return, if present.
pub open spec fn strip_cr(s: Seq<char>) -> Seq<char> {
    if s.len() > 0 && s.last() == '\r' {
        s.drop_last()
    } else {
        s
    }
}

/// `s.lines()`: pieces ended by `\n` (or `\r\n`), the line ending not included;
/// a final line without an ending is kept, a final empty piece is not.
pub open spec fn lines_of(s: Seq<char>) -> Seq<Seq<char>>
    decreases s.len(),
{
    if s.len() == 0 {
        seq![]
    } else {
        let i = index_of(s, '\n');
        if i < 0 || i >= s.len() {
            seq![s]
        } else {
            seq![strip_cr(s.take(i))] + lines_of(s.skip(i + 1))
        }
    }
}

/// Splits `v` into lines, as `str::lines` does.
pub fn split_lines(v: &[char]) -> (r: Vec<Vec<char>>)
    ensures
        r@.len() == lines_of(v@).len(),
        forall|k: int| 0 <= k < r@.len() ==> #[trigger] r@[k]@ == lines_of(v@)[k],
{
    let mut r: Vec<Vec<char>> = Vec::new();
    let mut start: usize = 0;
    let ghost mut done: Seq<Seq<char>> = seq![];
    assert(v@.skip(0) =~= v@);
    while start < v.len()
        invariant
            start <= v@.len(),
            r@.len() == done.len(),
            forall|k: int| 0 <= k < r@.len() ==> #[trigger] r@[k]@ == done[k],
            lines_of(v@) == done + lines_of(v@.skip(start as int)),
        decreases v@.len() - start,
    {
        let i = find_from(v, start, '\n');
        let ghost rest = v@.skip(start as int);
        proof {
            lemma_index_of_facts(rest, '\n');
        }
        if i < v.len() {
            let end = if i > start && v[i - 1] == '\r' {
                i - 1
            } else {
                i
            };
            let piece = sub_vec(v, start, end);
            proof {
                assert(piece@ =~= strip_cr(rest.take(i - start)));
                assert(rest.skip(i - start + 1) =~= v@.skip(i + 1));
                done = done.push(piece@);
            }
            r.push(piece);
            start = i + 1;
        } else {
            let piece = sub_vec(v, start, v.len());
            proof {
                assert(piece@ =~= rest);
                assert(v@.skip(v@.len() as int) =~= Seq::<char>::empty());
                done = done.push(piece@);
            }
            r.push(piece);
            start = v.len();
        }
    }
    assert(v@.skip(start as int) =~= Seq::<char>::empty());
    assert(lines_of(v@) =~= done);
    r
}

// ---------------------------------------------------------------------------
// Whitespace
// ---------------------------------------------------------------------------

/// Unicode `White_Space`, the property that `char::is_whitespace` tests: the
/// controls tab to carriage return, the space, next line, no-break space, Ogham
/// space mark, the spaces en quad to hair space, the line and paragraph
/// separators, narrow no-break space, medium mathematical space and the
/// ideographic space.
pub open spec fn is_white_space(c: char) -> bool {
    ||| '\t' <= c <= '\r'
    ||| c == ' '
    ||| c == '\u{85}'
    ||| c == '\u{a0}'
    ||| c == '\u{1680}'
    ||| '\u{2000}' <= c <= '\u{200a}'
    ||| c == '\u{2028}'
    ||| c == '\u{2029}'
    ||| c == '\u{202f}'
    ||| c == '\u{205f}'
    ||| c == '\u{3000}'
}

/// Whether `c` is whitespace in Unicode's sense (`char::is_whitespace`).
pub fn char_is_whitespace(c: char) -> (b: bool)
    ensures
        b == is_white_space(c),
{
    (c >= '\t' && c <= '\r') || c == ' ' || c == '\u{85}' || c == '\u{a0}' || c == '\u{1680}'
        || (c >= '\u{2000}' && c <= '\u{200a}') || c == '\u{2028}' || c == '\u{2029}'
        || c == '\u{202f}' || c == '\u{205f}' || c == '\u{3000}'
}

/// `s` without its leading whitespace.
pub open spec fn trim_start(s: Seq<char>) -> Seq<char>
    decreases s.len(),
{
    if s.len() > 0 && is_white_space(s[0]) {
        trim_start(s.drop_first())
    } else {
        s
    }
}

/// `s` without its trailing whitespace.
pub open spec fn trim_end(s: Seq<char>) -> Seq<char>
    decreases s.len(),
{
    if s.len() > 0 && is_white_space(s.last()) {
        trim_end(s.drop_last())
    } else {
        s
    }
}

/// `str::trim`: `s` without leading and trailing whitespace.
pub open spec fn trim(s: Seq<char>) -> Seq<char> {
    trim_end(trim_start(s))
}

proof fn lemma_trim_start(s: Seq<char>, a: int)
    requires
        0 <= a <= s.len(),
        forall|j: int| 0 <= j < a ==> is_white_space(s[j]),
        a < s.len() ==> !is_white_space(s[a]),
    ensures
        trim_start(s) == s.skip(a),
    decreases s.len(),
{
    if a == 0 {
        assert(s.skip(0) =~= s);
    } else {
        assert forall|j: int| 0 <= j < a - 1 implies is_white_space(s.drop_first()[j]) by {
            assert(s.drop_first()[j] == s[j + 1]);
        }
        lemma_trim_start(s.drop_first(), a - 1);
        assert(s.drop_first().skip(a - 1) =~= s.skip(a));
    }
}

proof fn lemma_trim_end(s: Seq<char>, b: int)
    requires
        0 <= b <= s.len(),
        forall|j: int| b <= j < s.len() ==> is_white_space(s[j]),
        b > 0 ==> !is_white_space(s[b - 1]),
    ensures
        trim_end(s) == s.take(b),
    decreases s.len(),
{
    if b == s.len() {
        assert(s.take(b) =~= s);
    } else {
        assert forall|j: int| b <= j < s.len() - 1 implies is_white_space(s.drop_last()[j]) by {
            assert(s.drop_last()[j] == s[j]);
        }
        lemma_trim_end(s.drop_last(), b);
        assert(s.drop_last().take(b) =~= s.take(b));
    }
}

/// `v` without leading and trailing whitespace, as `str::trim` does.
pub fn trim_chars(v: &[char]) -> (r: Vec<char>)
    ensures
        r@ == trim(v@),
{
    let mut a: usize = 0;
    while a < v.len()
        invariant
            a <= v@.len(),
            forall|j: int| 0 <= j < a ==> is_white_space(v@[j]),
        ensures
            a <= v@.len(),
            forall|j: int| 0 <= j < a ==> is_white_space(v@[j]),
            a < v@.len() ==> !is_white_space(v@[a as int]),
        decreases v@.len() - a,
    {
        if !char_is_whitespace(v[a]) {
            break;
        }
        a = a + 1;
    }
    proof {
        lemma_trim_start(v@, a as int);
    }
    let mut b: usize = v.len();
    while b > a
        invariant
            a <= b <= v@.len(),
            forall|j: int| b <= j < v@.len() ==> is_white_space(v@[j]),
        ensures
            a <= b <= v@.len(),
            forall|j: int| b <= j < v@.len() ==> is_white_space(v@[j]),
            b > a ==> !is_white_space(v@[b - 1]),
        decreases b,
    {
        if !char_is_whitespace(v[b - 1]) {
            break;
        }
        b = b - 1;
    }
    proof {
        let t = v@.skip(a as int);
        assert forall|j: int| b - a <= j < t.len() implies is_white_space(t[j]) by {
            assert(t[j] == v@[j + a]);
        }
        if b > a {
            assert(t[b - a - 1] == v@[b - 1]);
        }
        lemma_trim_end(t, b - a);
        assert(t.take(b - a) =~= v@.subrange(a as int, b as int));
    }
    sub_vec(v, a, b)
}

/// Length of the leading run of non-whitespace characters.
pub open spec fn word_len(s: Seq<char>) -> nat
    decreases s.len(),
{
    if s.len() == 0 || is_white_space(s[0]) {
        0
    } else {
        1 + word_len(s.drop_first())
    }
}

/// `str::split_whitespace`: the maximal runs of non-whitespace characters.
pub open spec fn words(s: Seq<char>) -> Seq<Seq<char>>
    decreases s.len(),
{
    if s.len() == 0 {
        seq![]
    } else if is_white_space(s[0]) {
        words(s.drop_first())
    } else {
        proof {
            lemma_word_len_bound(s);
        }
        seq![s.take(word_len(s) as int)] + words(s.skip(word_len(s) as int))
    }
}

/// A word is never longer than the text it starts.
pub proof fn lemma_word_len_bound(s: Seq<char>)
    ensures
        word_len(s) <= s.len(),
        s.len() > 0 && !is_white_space(s[0]) ==> word_len(s) >= 1,
    decreases s.len(),
{
    if s.len() > 0 && !is_white_space(s[0]) {
        lemma_word_len_bound(s.drop_first());
    }
}

proof fn lemma_word_len(s: Seq<char>, k: int)
    requires
        0 <= k <= s.len(),
        forall|j: int| 0 <= j < k ==> !is_white_space(s[j]),
        k < s.len() ==> is_white_space(s[k]),
    ensures
        word_len(s) == k,
    decreases s.len(),
{
    if k > 0 {
        assert forall|j: int| 0 <= j < k - 1 implies !is_white_space(s.drop_first()[j]) by {
            assert(s.drop_first()[j] == s[j + 1]);
        }
        lemma_word_len(s.drop_first(), k - 1);
    }
}

/// Splits `v` into whitespace-separated words, as `str::split_whitespace` does.
pub fn split_words(v: &[char]) -> (r: Vec<Vec<char>>)
    ensures
        r@.len() == words(v@).len(),
        forall|k: int| 0 <= k < r@.len() ==> #[trigger] r@[k]@ == words(v@)[k],
{
    let mut r: Vec<Vec<char>> = Vec::new();
    let mut i: usize = 0;
    let ghost mut done: Seq<Seq<char>> = seq![];
    assert(v@.skip(0) =~= v@);
    while i < v.len()
        invariant
            i <= v@.len(),
            r@.len() == done.len(),
            forall|k: int| 0 <= k < r@.len() ==> #[trigger] r@[k]@ == done[k],
            words(v@) == done + words(v@.skip(i as int)),
        decreases v@.len() - i,
    {
        let ghost rest = v@.skip(i as int);
        if char_is_whitespace(v[i]) {
            assert(rest.drop_first() =~= v@.skip(i + 1));
            i = i + 1;
        } else {
            let mut j = i + 1;
            while j < v.len()
                invariant
                    i < j <= v@.len(),
                    forall|m: int| i <= m < j ==> !is_white_space(v@[m]),
                ensures
                    i < j <= v@.len(),
                    forall|m: int| i <= m < j ==> !is_white_space(v@[m]),
                    j < v@.len() ==> is_white_space(v@[j as int]),
                decreases v@.len() - j,
            {
                if char_is_whitespace(v[j]) {
                    break;
                }
                j = j + 1;
            }
            let piece = sub_vec(v, i, j);
            proof {
                assert forall|m: int| 0 <= m < j - i implies !is_white_space(rest[m]) by {
                    assert(rest[m] == v@[m + i]);
                }
                if j < v@.len() {
                    assert(rest[j - i] == v@[j as int]);
                }
                lemma_word_len(rest, j - i);
                assert(piece@ =~= rest.take(j - i));
                assert(rest.skip(j - i) =~= v@.skip(j as int));
                done = done.push(piece@);
            }
            r.push(piece);
            i = j;
        }
    }
    assert(v@.skip(i as int) =~= Seq::<char>::empty());
    assert(words(v@) =~= done);
    r
}

/// Words separated by single spaces.
pub open spec fn join_words(ws: Seq<Seq<char>>) -> Seq<char>
    decreases ws.len(),
{
    if ws.len() == 0 {
        seq![]
    } else if ws.len() == 1 {
        ws[0]
    } else {
        join_words(ws.drop_last()) + seq![' '] + ws.last()
    }
}

// ---------------------------------------------------------------------------
// Decimal numbers
// ---------------------------------------------------------------------------

/// An ASCII decimal digit.
pub open spec fn is_digit(c: char) -> bool {
    '0' <= c <= '9'
}

/// The value of a string of decimal digits.
pub open spec fn digits_value(s: Seq<char>) -> nat
    decreases s.len(),
{
    if s.len() == 0 {
        0
    } else {
        digits_value(s.drop_last()) * 10 + (s.last() as nat - '0' as nat) as nat
    }
}

/// The digits part of an unsigned number: the text without one leading `+`.
pub open spec fn unsigned_digits(s: Seq<char>) -> Seq<char> {
    if s.len() > 0 && s[0] == '+' {
        s.drop_first()
    } else {
        s
    }
}

/// Every character is an ASCII digit.
pub open spec fn all_digits(d: Seq<char>) -> bool {
    forall|i: int| 0 <= i < d.len() ==> is_digit(#[trigger] d[i])
}

/// `str::parse` of an unsigned integer type whose largest value is `max`:
/// an optional `+`, then one or more ASCII digits whose value is at most `max`.
pub open spec fn parse_unsigned(s: Seq<char>, max: nat) -> Option<nat> {
    let d = unsigned_digits(s);
    if d.len() > 0 && all_digits(d) && digits_value(d) <= max {
        Some(digits_value(d))
    } else {
        None
    }
}

proof fn lemma_digits_value_prefix(s: Seq<char>, k: int)
    requires
        0 <= k <= s.len(),
        forall|i: int| 0 <= i < s.len() ==> is_digit(#[trigger] s[i]),
    ensures
        digits_value(s.take(k)) <= digits_value(s),
    decreases s.len(),
{
    if k < s.len() {
        let t = s.drop_last();
        assert forall|i: int| 0 <= i < t.len() implies is_digit(#[trigger] t[i]) by {
            assert(t[i] == s[i]);
        }
        lemma_digits_value_prefix(t, k);
        assert(t.take(k) =~= s.take(k));
    } else {
        assert(s.take(k) =~= s);
    }
}

/// Parses an unsigned decimal integer bounded by `max`, as `str::parse` does for
/// the unsigned integer type whose largest value is `max`.
pub fn parse_bounded(v: &[char], max: u64) -> (r: Option<u64>)
    ensures
        match parse_unsigned(v@, max as nat) {
            Some(n) => r == Some(n as u64),
            None => r is None,
        },
{
    let start: usize = if v.len() > 0 && v[0] == '+' {
        1
    } else {
        0
    };
    let ghost d = v@.skip(start as int);
    assert(d =~= unsigned_digits(v@));
    if start == v.len() {
        return None;
    }
    let mut i = start;
    while i < v.len()
        invariant
            start <= i <= v@.len(),
            d == v@.skip(start as int),
            d == unsigned_digits(v@),
            forall|m: int| 0 <= m < i - start ==> is_digit(#[trigger] d[m]),
        decreases v@.len() - i,
    {
        if !(v[i] >= '0' && v[i] <= '9') {
            assert(parse_unsigned(v@, max as nat) is None) by {
                assert(d[i - start] == v@[i as int]);
                assert(!is_digit(d[i - start]));
            }
            return None;
        }
        assert(d[i - start] == v@[i as int]);
        i = i + 1;
    }
    let mut acc: u64 = 0;
    let mut k = start;
    while k < v.len()
        invariant
            start <= k <= v@.len(),
            d == v@.skip(start as int),
            d == unsigned_digits(v@),
            d.len() == v@.len() - start,
            forall|m: int| 0 <= m < d.len() ==> is_digit(#[trigger] d[m]),
            acc as nat == digits_value(d.take(k - start)),
            acc <= max,
        decreases v@.len() - k,
    {
        assert(d[k - start] == v@[k as int]);
        assert(is_digit(d[k - start]));
        let digit = (v[k] as u32 - '0' as u32) as u64;
        proof {
            let t = d.take(k - start + 1);
            assert(t.drop_last() =~= d.take(k - start));
            assert(t.last() == v@[k as int]);
            assert(is_digit(d[k - start]));
        }
        let next = match acc.checked_mul(10) {
            Some(m) => m.checked_add(digit),
            None => None,
        };
        match next {
            Some(n) => {
                assert(n as nat == digits_value(d.take(k - start + 1)));
                if n > max {
                    proof {
                        lemma_digits_value_prefix(d, k - start + 1);
                    }
                    return None;
                }
                acc = n;
            },
            None => {
                proof {
                    assert(digits_value(d.take(k - start + 1)) == acc * 10 + digit);
                    lemma_digits_value_prefix(d, k - start + 1);
                }
                return None;
            },
        }
        k = k + 1;
    }
    assert(d.take(d.len() as int) =~= d);
    Some(acc)
}

// ---------------------------------------------------------------------------
// Prefix removal and first word
// ---------------------------------------------------------------------------

/// `str::strip_prefix`: what follows `p` when `s` starts with it.
pub open spec fn strip_prefix(s: Seq<char>, p: Seq<char>) -> Option<Seq<char>> {
    if has_prefix(s, p) {
        Some(s.skip(p.len() as int))
    } else {
        None
    }
}

/// Removes the characters of `p` from the front of `v`, when `v` starts with them.
pub fn strip_prefix_str(v: &[char], p: &str) -> (r: Option<Vec<char>>)
    ensures
        match strip_prefix(v@, p@) {
            Some(rest) => r matches Some(x) && x@ == rest,
            None => r is None,
        },
{
    let pc = chars_of(p);
    if starts_with(v, pc.as_slice()) {
        let rest = sub_vec(v, pc.len(), v.len());
        assert(rest@ =~= v@.skip(p@.len() as int));
        Some(rest)
    } else {
        None
    }
}

/// The first whitespace-separated word of `s`, or nothing when there is none
/// (`s.split_whitespace().next().unwrap_or("")`).
pub open spec fn first_word(s: Seq<char>) -> Seq<char> {
    if words(s).len() > 0 {
        words(s)[0]
    } else {
        seq![]
    }
}

/// The first whitespace-separated word of `v`, or an empty vector.
pub fn first_word_of(v: &[char]) -> (r: Vec<char>)
    ensures
        r@ == first_word(v@),
{
    let ws = split_words(v);
    if ws.len() > 0 {
        let w = &ws[0];
        let r = sub_vec(w.as_slice(), 0, w.len());
        assert(r@ =~= w@);
        r
    } else {
        Vec::new()
    }
}

// ---------------------------------------------------------------------------
// Decimal formatting and substring search
// ---------------------------------------------------------------------------

/// The ASCII digit for `d < 10`.
pub open spec fn digit_char(d: nat) -> char {
    (('0' as nat) + d) as char
}

/// The decimal representation of `n`, without leading zeros (`format!("{n}")`).
pub open spec fn decimal(n: nat) -> Seq<char>
    decreases n,
{
    if n < 10 {
        seq![digit_char(n)]
    } else {
        decimal(n / 10).push(digit_char(n % 10))
    }
}

/// The decimal representation of `n`.
pub fn decimal_of(n: u64) -> (r: Vec<char>)
    ensures
        r@ == decimal(n as nat),
    decreases n,
{
    let d = (n % 10) as u32;
    let c = char_from_digit(d);
    if n < 10 {
        let mut r: Vec<char> = Vec::new();
        r.push(c);
        r
    } else {
        let mut r = decimal_of(n / 10);
        r.push(c);
        r
    }
}

/// The ASCII digit for `d < 10`.
fn char_from_digit(d: u32) -> (c: char)
    requires
        d < 10,
    ensures
        c == digit_char(d as nat),
{
    if d == 0 {
        '0'
    } else if d == 1 {
        '1'
    } else if d == 2 {
        '2'
    } else if d == 3 {
        '3'
    } else if d == 4 {
        '4'
    } else if d == 5 {
        '5'
    } else if d == 6 {
        '6'
    } else if d == 7 {
        '7'
    } else if d == 8 {
        '8'
    } else {
        '9'
    }
}

/// `p` occurs somewhere in `s` (`str::contains`).
pub open spec fn occurs_in(s: Seq<char>, p: Seq<char>) -> bool {
    exists|i: int| 0 <= i && i + p.len() <= s.len() && #[trigger] s.subrange(i, i + p.len()) == p
}

/// Whether the characters of `p` occur somewhere in `v`.
pub fn contains_str(v: &[char], p: &str) -> (b: bool)
    ensures
        b == occurs_in(v@, p@),
{
    let pc = chars_of(p);
    let pl = pc.len();
    if pl > v.len() {
        assert forall|i: int| 0 <= i && i + p@.len() <= v@.len() implies #[trigger] v@.subrange(
            i,
            i + p@.len(),
        ) != p@ by {}
        return false;
    }
    if pl == 0 {
        assert(v@.subrange(0, 0int + p@.len()) =~= p@);
        return true;
    }
    let mut i: usize = 0;
    while i <= v.len() - pl
        invariant
            pl == p@.len(),
            pc@ == p@,
            1 <= pl <= v@.len(),
            i <= v@.len() - pl + 1,
            forall|k: int| 0 <= k < i ==> #[trigger] v@.subrange(k, k + pl) != p@,
        decreases v@.len() + 1 - i,
    {
        let rest = sub_vec(v, i, v.len());
        if starts_with(rest.as_slice(), pc.as_slice()) {
            assert(rest@.take(pl as int) =~= v@.subrange(i as int, i + pl));
            return true;
        }
        assert(rest@.take(pl as int) =~= v@.subrange(i as int, i + pl));
        i = i + 1;
    }
    false
}

// ---------------------------------------------------------------------------
// Case and the last occurrence of a character
// ---------------------------------------------------------------------------

/// Text made of ASCII characters only.
pub open spec fn is_ascii_text(s: Seq<char>) -> bool {
    forall|i: int| 0 <= i < s.len() ==> s[i] <= '\u{7f}'
}

/// An ASCII capital letter turned to its small letter; other characters unchanged.
pub open spec fn ascii_lower_char(c: char) -> char {
    if 'A' <= c <= 'Z' {
        ((c as u32) + 32) as char
    } else {
        c
    }
}

/// [`ascii_lower_char`] applied to every character.
pub open spec fn ascii_lowercase(s: Seq<char>) -> Seq<char> {
    s.map_values(|c: char| ascii_lower_char(c))
}

/// The Unicode lowercase of a text that is not ASCII only, as
/// `str::to_lowercase` computes it.
pub uninterp spec fn unicode_lowercase(s: Seq<char>) -> Seq<char>;

/// The lowercase of a text: for ASCII text, `A`-`Z` turned to `a`-`z` and all
/// else kept; beyond ASCII, the Unicode mapping.
pub open spec fn lowercase(s: Seq<char>) -> Seq<char> {
    if is_ascii_text(s) {
        ascii_lowercase(s)
    } else {
        unicode_lowercase(s)
    }
}

/// `str::to_lowercase`: the lowercase equivalent of `s` under the Unicode
/// `Lowercase` property. On ASCII text that is the letters `A`-`Z` turned to
/// `a`-`z` with every other character kept; what the mapping does beyond ASCII
/// is left to the name [`unicode_lowercase`].
#[verifier::external_body]
pub fn to_lowercase(s: &str) -> (r: String)
    ensures
        r@ == lowercase(s@),
        !is_ascii_text(s@) ==> r@ == unicode_lowercase(s@),
{
    s.to_lowercase()
}

/// Index of the last occurrence of `c` in `s`, or -1 when there is none.
pub open spec fn last_index_of(s: Seq<char>, c: char) -> int
    decreases s.len(),
{
    if s.len() == 0 {
        -1
    } else if s.last() == c {
        s.len() - 1
    } else {
        last_index_of(s.drop_last(), c)
    }
}

/// `str::rsplit_once`: the parts before and after the last `c`.
pub open spec fn rsplit_once(s: Seq<char>, c: char) -> Option<(Seq<char>, Seq<char>)> {
    let i = last_index_of(s, c);
    if i < 0 {
        None
    } else {
        Some((s.take(i), s.skip(i + 1)))
    }
}

/// The last index of `c` is `i` when `s[i]` is `c` and no later character is
/// (with `i` of -1 when `c` does not occur).
pub proof fn lemma_last_index_of(s: Seq<char>, c: char, i: int)
    requires
        -1 <= i < s.len(),
        forall|j: int| i < j < s.len() ==> s[j] != c,
        i >= 0 ==> s[i] == c,
    ensures
        last_index_of(s, c) == i,
    decreases s.len(),
{
    if s.len() > 0 && i < s.len() - 1 {
        assert forall|j: int| i < j < s.len() - 1 implies s.drop_last()[j] != c by {
            assert(s.drop_last()[j] == s[j]);
        }
        lemma_last_index_of(s.drop_last(), c, i);
    }
}

/// Splits `v` at its last `c`, as `str::rsplit_once` does.
pub fn rsplit_once_on(v: &[char], c: char) -> (r: Option<(Vec<char>, Vec<char>)>)
    ensures
        match rsplit_once(v@, c) {
            Some((a, b)) => r matches Some((x, y)) && x@ == a && y@ == b,
            None => r is None,
        },
{
    let mut i: usize = v.len();
    while i > 0
        invariant
            i <= v@.len(),
            forall|j: int| i <= j < v@.len() ==> v@[j] != c,
        ensures
            i <= v@.len(),
            forall|j: int| i <= j < v@.len() ==> v@[j] != c,
            i > 0 ==> v@[i - 1] == c,
        decreases i,
    {
        if v[i - 1] == c {
            break;
        }
        i = i - 1;
    }
    proof {
        lemma_last_index_of(v@, c, i - 1);
    }
    if i == 0 {
        None
    } else {
        let a = sub_vec(v, 0, i - 1);
        let b = sub_vec(v, i, v.len());
        assert(a@ =~= v@.take(i - 1));
        assert(b@ =~= v@.skip(i as int));
        Some((a, b))
    }
}

// ---------------------------------------------------------------------------
// Building text
// ---------------------------------------------------------------------------

/// Appends the characters of `s` to `v`.
pub fn append_str(v: &mut Vec<char>, s: &str)
    ensures
        final(v)@ == old(v)@ + s@,
{
    let p = chars_of(s);
    append_chars(v, p.as_slice());
}

/// Appends the characters `s` to `v`.
pub fn append_chars(v: &mut Vec<char>, s: &[char])
    ensures
        final(v)@ == old(v)@ + s@,
{
    let ghost start = v@;
    let mut i: usize = 0;
    while i < s.len()
        invariant
            i <= s@.len(),
            v@ == start + s@.take(i as int),
        decreases s@.len() - i,
    {
        v.push(s[i]);
        assert(start + s@.take(i as int) + seq![s@[i as int]] =~= start + s@.take(i + 1));
        i = i + 1;
    }
    assert(s@.take(s@.len() as int) =~= s@);
}

/// Appends the decimal representation of `n` to `v`.
pub fn append_decimal(v: &mut Vec<char>, n: u64)
    ensures
        final(v)@ == old(v)@ + decimal(n as nat),
{
    let d = decimal_of(n);
    append_chars(v, d.as_slice());
}

// ---------------------------------------------------------------------------
// Alphanumeric characters
// ---------------------------------------------------------------------------

/// An ASCII digit or letter.
pub open spec fn is_ascii_alphanumeric(c: char) -> bool {
    '0' <= c <= '9' || 'a' <= c <= 'z' || 'A' <= c <= 'Z'
}

/// Unicode `Alphabetic` or `Numeric` for a character beyond ASCII, the test of
/// `char::is_alphanumeric`.
pub uninterp spec fn unicode_alphanumeric(c: char) -> bool;

/// Alphabetic or numeric: among ASCII characters the digits and letters, beyond
/// ASCII the Unicode properties.
pub open spec fn is_alphanumeric(c: char) -> bool {
    if c <= '\u{7f}' {
        is_ascii_alphanumeric(c)
    } else {
        unicode_alphanumeric(c)
    }
}

/// `char::is_alphanumeric`: whether `c` is alphabetic or numeric in Unicode's
/// sense. Among ASCII characters those are the digits and the letters; beyond
/// ASCII the property is left to the name [`unicode_alphanumeric`].
#[verifier::external_body]
pub fn char_is_alphanumeric(c: char) -> (b: bool)
    ensures
        b == is_alphanumeric(c),
        c > '\u{7f}' ==> b == unicode_alphanumeric(c),
{
    c.is_alphanumeric()
}

} // verus!
