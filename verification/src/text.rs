//! Character-level text primitives shared by the parsers: character
//! classes, trimming, line splitting, substring search and byte offsets.
use vstd::prelude::*;

verus! {

// ───────────────────────── character classes ─────────────────────────

/// `char::is_ascii_alphabetic`.
pub open spec fn is_alpha(c: char) -> bool {
    ('A' <= c && c <= 'Z') || ('a' <= c && c <= 'z')
}

/// `char::is_whitespace`: the Unicode `White_Space` property.
pub open spec fn is_ws(c: char) -> bool {
    let u = c as u32;
    ||| (0x9 <= u && u <= 0xD)
    ||| u == 0x20
    ||| u == 0x85
    ||| u == 0xA0
    ||| u == 0x1680
    ||| (0x2000 <= u && u <= 0x200A)
    ||| u == 0x2028
    ||| u == 0x2029
    ||| u == 0x202F
    ||| u == 0x205F
    ||| u == 0x3000
}

pub fn ascii_alphabetic(c: char) -> (b: bool)
    ensures
        b == is_alpha(c),
{
    ('A' <= c && c <= 'Z') || ('a' <= c && c <= 'z')
}

pub fn whitespace(c: char) -> (b: bool)
    ensures
        b == is_ws(c),
{
    let u = c as u32;
    (0x9 <= u && u <= 0xD) || u == 0x20 || u == 0x85 || u == 0xA0 || u == 0x1680 || (0x2000 <= u
        && u <= 0x200A) || u == 0x2028 || u == 0x2029 || u == 0x202F || u == 0x205F || u == 0x3000
}

// ───────────────────────── conversions ─────────────────────────

/// The characters of a string slice, in order.
pub fn chars_of(s: &str) -> (v: Vec<char>)
    ensures
        v@ == s@,
        byte_len(s@) <= usize::MAX,
{
    let bytes = s.as_bytes();
    let _nbytes = bytes.len();
    proof {
        lemma_encode_len(s@);
    }
    let mut v: Vec<char> = Vec::new();
    for c in it: s.chars()
        invariant
            v@ == it.seq().take(it.index() as int),
            it.seq() == s@,
    {
        v.push(c);
    }
    v
}

/// Collects characters into an owned `String` (`FromIterator<char>`).
#[verifier::external_body]
pub(crate) fn string_of(v: &[char]) -> (s: String)
    ensures
        s@ == v@,
{
    v.iter().collect::<String>()
}

/// The characters `s[lo..hi]` as an owned `String`.
pub fn string_of_range(s: &[char], lo: usize, hi: usize) -> (r: String)
    requires
        lo <= hi <= s@.len(),
    ensures
        r@ == s@.subrange(lo as int, hi as int),
{
    let mut v: Vec<char> = Vec::new();
    let mut i = lo;
    while i < hi
        invariant
            lo <= i <= hi <= s@.len(),
            v@ == s@.subrange(lo as int, i as int),
        decreases hi - i,
    {
        v.push(s[i]);
        i = i + 1;
        assert(v@ =~= s@.subrange(lo as int, i as int));
    }
    string_of(v.as_slice())
}

// ───────────────────────── trimming ─────────────────────────

/// Leading whitespace removed (`str::trim_start`).
pub open spec fn trim_start(s: Seq<char>) -> Seq<char>
    decreases s.len(),
{
    if s.len() > 0 && is_ws(s[0]) {
        trim_start(s.drop_first())
    } else {
        s
    }
}

/// Trailing whitespace removed (`str::trim_end`).
pub open spec fn trim_end(s: Seq<char>) -> Seq<char>
    decreases s.len(),
{
    if s.len() > 0 && is_ws(s.last()) {
        trim_end(s.drop_last())
    } else {
        s
    }
}

/// Whitespace removed at both ends (`str::trim`).
pub open spec fn trim(s: Seq<char>) -> Seq<char> {
    trim_end(trim_start(s))
}

/// Bounds of `trim(s[lo..hi])` inside `s`.
pub fn trim_bounds(s: &[char], lo: usize, hi: usize) -> (r: (usize, usize))
    requires
        lo <= hi <= s@.len(),
    ensures
        lo <= r.0 <= r.1 <= hi,
        trim(s@.subrange(lo as int, hi as int)) == s@.subrange(r.0 as int, r.1 as int),
{
    let mut i = lo;
    while i < hi && whitespace(s[i])
        invariant
            lo <= i <= hi <= s@.len(),
            trim_start(s@.subrange(lo as int, hi as int)) == trim_start(
                s@.subrange(i as int, hi as int),
            ),
        decreases hi - i,
    {
        assert(s@.subrange(i as int, hi as int).drop_first() =~= s@.subrange(
            i + 1,
            hi as int,
        ));
        i = i + 1;
    }
    let mut j = hi;
    while j > i && whitespace(s[j - 1])
        invariant
            lo <= i <= j <= hi <= s@.len(),
            trim_start(s@.subrange(lo as int, hi as int)) == s@.subrange(i as int, hi as int),
            trim_end(s@.subrange(i as int, hi as int)) == trim_end(
                s@.subrange(i as int, j as int),
            ),
        decreases j - i,
    {
        assert(s@.subrange(i as int, j as int).drop_last() =~= s@.subrange(
            i as int,
            j - 1,
        ));
        j = j - 1;
    }
    (i, j)
}

/// Leading copies of `c` removed (`str::trim_start_matches` with a `char`).
pub open spec fn strip_leading(s: Seq<char>, c: char) -> Seq<char>
    decreases s.len(),
{
    if s.len() > 0 && s[0] == c {
        strip_leading(s.drop_first(), c)
    } else {
        s
    }
}

/// Start of `strip_leading(s[lo..hi], c)` inside `s`.
pub fn strip_leading_start(s: &[char], lo: usize, hi: usize, c: char) -> (k: usize)
    requires
        lo <= hi <= s@.len(),
    ensures
        lo <= k <= hi,
        strip_leading(s@.subrange(lo as int, hi as int), c) == s@.subrange(k as int, hi as int),
{
    let mut i = lo;
    while i < hi && s[i] == c
        invariant
            lo <= i <= hi <= s@.len(),
            strip_leading(s@.subrange(lo as int, hi as int), c) == strip_leading(
                s@.subrange(i as int, hi as int),
                c,
            ),
        decreases hi - i,
    {
        assert(s@.subrange(i as int, hi as int).drop_first() =~= s@.subrange(
            i + 1,
            hi as int,
        ));
        i = i + 1;
    }
    i
}

// ───────────────────────── last frame ─────────────────────────

/// What follows the last `c` in `s` (all of `s` if there is none):
/// the first item of `str::rsplit(c)`.
pub open spec fn after_last(s: Seq<char>, c: char) -> Seq<char>
    decreases s.len(),
{
    if s.len() == 0 {
        s
    } else if s.last() == c {
        Seq::empty()
    } else {
        after_last(s.drop_last(), c).push(s.last())
    }
}

/// Start of `after_last(s[lo..hi], c)` inside `s`.
pub fn after_last_start(s: &[char], lo: usize, hi: usize, c: char) -> (k: usize)
    requires
        lo <= hi <= s@.len(),
    ensures
        lo <= k <= hi,
        after_last(s@.subrange(lo as int, hi as int), c) == s@.subrange(k as int, hi as int),
{
    let mut j = hi;
    while j > lo && s[j - 1] != c
        invariant
            lo <= j <= hi <= s@.len(),
            after_last(s@.subrange(lo as int, hi as int), c) == after_last(
                s@.subrange(lo as int, j as int),
                c,
            ) + s@.subrange(j as int, hi as int),
        decreases j - lo,
    {
        let ghost t = s@.subrange(lo as int, j as int);
        assert(t.drop_last() =~= s@.subrange(lo as int, j - 1));
        assert(after_last(t, c) == after_last(t.drop_last(), c).push(t.last()));
        assert(after_last(t.drop_last(), c).push(t.last()) + s@.subrange(j as int, hi as int)
            =~= after_last(t.drop_last(), c) + s@.subrange(j - 1, hi as int));
        j = j - 1;
    }
    if j > lo {
        let ghost t = s@.subrange(lo as int, j as int);
        assert(t.last() == c);
        assert(after_last(t, c) =~= Seq::<char>::empty());
        assert(Seq::<char>::empty() + s@.subrange(j as int, hi as int) =~= s@.subrange(
            j as int,
            hi as int,
        ));
    } else {
        assert(s@.subrange(lo as int, j as int).len() == 0);
        assert(Seq::<char>::empty() + s@.subrange(j as int, hi as int) =~= s@.subrange(
            j as int,
            hi as int,
        ));
        assert(after_last(s@.subrange(lo as int, j as int), c) =~= Seq::<char>::empty());
    }
    j
}

// ───────────────────────── substring search ─────────────────────────

/// `pat` occurs in `s` at position `i`.
pub open spec fn matches_at(s: Seq<char>, pat: Seq<char>, i: int) -> bool {
    0 <= i && i + pat.len() <= s.len() && s.subrange(i, i + pat.len()) == pat
}

/// `str::contains` with a string pattern.
pub open spec fn contains(s: Seq<char>, pat: Seq<char>) -> bool {
    exists|i: int| matches_at(s, pat, i)
}

/// A pattern found in `l` is still found with text around `l`.
pub proof fn lemma_contains_within(p: Seq<char>, l: Seq<char>, q: Seq<char>, pat: Seq<char>)
    requires
        contains(l, pat),
    ensures
        contains(p + l + q, pat),
{
    let i = choose|i: int| matches_at(l, pat, i);
    let s = p + l + q;
    assert(s.subrange(i + p.len(), i + p.len() + pat.len()) =~= l.subrange(i, i + pat.len()));
    assert(matches_at(s, pat, i + p.len()));
}

/// The first position at or after `i` where `pat` occurs in `s`.
pub open spec fn find_from(s: Seq<char>, pat: Seq<char>, i: int) -> Option<int>
    decreases s.len() + 1 - i,
{
    if i < 0 || i + pat.len() > s.len() {
        None
    } else if matches_at(s, pat, i) {
        Some(i)
    } else {
        find_from(s, pat, i + 1)
    }
}

/// The first position where `pat` occurs in `s`, counted in characters.
pub open spec fn find_char_index(s: Seq<char>, pat: Seq<char>) -> Option<int> {
    find_from(s, pat, 0)
}

/// `find_from` gives the least matching position at or after `i`.
pub proof fn lemma_find_from(s: Seq<char>, pat: Seq<char>, i: int)
    requires
        0 <= i,
    ensures
        find_from(s, pat, i) matches Some(k) ==> i <= k && matches_at(s, pat, k) && forall|j: int|
            i <= j < k ==> !matches_at(s, pat, j),
        find_from(s, pat, i) is None ==> forall|j: int| i <= j ==> !matches_at(s, pat, j),
    decreases s.len() + 1 - i,
{
    if i + pat.len() > s.len() {
    } else if matches_at(s, pat, i) {
    } else {
        lemma_find_from(s, pat, i + 1);
    }
}

/// `pat` occurs in `s[lo..hi]` at offset `i`.
pub fn matches_at_exec(s: &[char], lo: usize, hi: usize, pat: &[char], i: usize) -> (b: bool)
    requires
        lo <= hi <= s@.len(),
    ensures
        b == matches_at(s@.subrange(lo as int, hi as int), pat@, i as int),
{
    let ghost t = s@.subrange(lo as int, hi as int);
    if i > hi - lo || pat.len() > hi - lo - i {
        return false;
    }
    let mut k: usize = 0;
    while k < pat.len()
        invariant
            lo <= hi <= s@.len(),
            i + pat.len() <= hi - lo,
            k <= pat.len(),
            forall|m: int| 0 <= m < k ==> t[i + m] == pat@[m],
            t == s@.subrange(lo as int, hi as int),
        decreases pat.len() - k,
    {
        if s[lo + i + k] != pat[k] {
            assert(t.subrange(i as int, i + pat.len())[k as int] != pat@[k as int]);
            return false;
        }
        k = k + 1;
    }
    assert(t.subrange(i as int, i + pat.len()) =~= pat@);
    true
}

/// First occurrence of `pat` in `s[lo..hi]`, as a character offset.
pub fn find_in(s: &[char], lo: usize, hi: usize, pat: &[char]) -> (r: Option<usize>)
    requires
        lo <= hi <= s@.len(),
    ensures
        r matches Some(k) ==> find_char_index(s@.subrange(lo as int, hi as int), pat@) == Some(
            k as int,
        ),
        r is None ==> find_char_index(s@.subrange(lo as int, hi as int), pat@) is None,
{
    let ghost t = s@.subrange(lo as int, hi as int);
    if pat.len() > hi - lo {
        return None;
    }
    let last = hi - lo - pat.len();
    let mut i: usize = 0;
    loop
        invariant
            lo <= hi <= s@.len(),
            last + pat.len() == hi - lo,
            i <= last,
            t == s@.subrange(lo as int, hi as int),
            find_from(t, pat@, 0) == find_from(t, pat@, i as int),
        decreases last - i,
    {
        if matches_at_exec(s, lo, hi, pat, i) {
            return Some(i);
        }
        if i == last {
            assert(find_from(t, pat@, i + 1) is None);
            return None;
        }
        i = i + 1;
    }
}

/// Whether `pat` occurs in `s[lo..hi]`.
pub fn contains_in(s: &[char], lo: usize, hi: usize, pat: &[char]) -> (b: bool)
    requires
        lo <= hi <= s@.len(),
    ensures
        b == contains(s@.subrange(lo as int, hi as int), pat@),
{
    let r = find_in(s, lo, hi, pat);
    proof {
        lemma_find_from(s@.subrange(lo as int, hi as int), pat@, 0);
    }
    r.is_some()
}

// ───────────────────────── UTF-8 byte lengths ─────────────────────────

/// `char::len_utf8`.
pub open spec fn utf8_width(c: char) -> nat {
    let u = c as u32;
    if u < 0x80 {
        1
    } else if u < 0x800 {
        2
    } else if u < 0x10000 {
        3
    } else {
        4
    }
}

/// Number of bytes in the UTF-8 encoding of `s` (`str::len`).
pub open spec fn byte_len(s: Seq<char>) -> nat
    decreases s.len(),
{
    if s.len() == 0 {
        0
    } else {
        byte_len(s.drop_last()) + utf8_width(s.last())
    }
}

/// Byte lengths add up over concatenation.
pub proof fn lemma_byte_len_add(a: Seq<char>, b: Seq<char>)
    ensures
        byte_len(a + b) == byte_len(a) + byte_len(b),
    decreases b.len(),
{
    if b.len() > 0 {
        assert((a + b).drop_last() =~= a + b.drop_last());
        lemma_byte_len_add(a, b.drop_last());
    } else {
        assert(a + b =~= a);
    }
}

/// A piece of a sequence has no more bytes than the whole.
pub proof fn lemma_byte_len_subrange(s: Seq<char>, i: int, j: int)
    requires
        0 <= i <= j <= s.len(),
    ensures
        byte_len(s.subrange(i, j)) <= byte_len(s),
{
    lemma_byte_len_add(s.subrange(0, i), s.subrange(i, j));
    lemma_byte_len_add(s.subrange(0, j), s.subrange(j, s.len() as int));
    assert(s.subrange(0, i) + s.subrange(i, j) =~= s.subrange(0, j));
    assert(s.subrange(0, j) + s.subrange(j, s.len() as int) =~= s);
}

/// The UTF-8 encoding that `vstd` specifies has `byte_len` bytes.
pub proof fn lemma_encode_len(s: Seq<char>)
    ensures
        vstd::utf8::encode_utf8(s).len() == byte_len(s),
    decreases s.len(),
{
    if s.len() > 0 {
        lemma_encode_len(s.drop_first());
        lemma_byte_len_add(seq![s[0]], s.drop_first());
        assert(seq![s[0]] + s.drop_first() =~= s);
        assert(seq![s[0]].drop_last() =~= Seq::<char>::empty());
        lemma_scalar_len(s[0]);
        assert(byte_len(seq![s[0]]) == byte_len(Seq::<char>::empty()) + utf8_width(s[0]));
        assert(vstd::utf8::encode_utf8(s) == vstd::utf8::encode_scalar(s[0] as u32)
            + vstd::utf8::encode_utf8(s.drop_first()));
    }
}

proof fn lemma_scalar_len(c: char)
    ensures
        vstd::utf8::encode_scalar(c as u32).len() == utf8_width(c),
{
    let u = c as u32;
    assert(u <= 0xD7FF || (0xE000 <= u && u <= 0x10FFFF));
}

pub fn utf8_width_exec(c: char) -> (w: usize)
    ensures
        w == utf8_width(c),
{
    let u = c as u32;
    if u < 0x80 {
        1
    } else if u < 0x800 {
        2
    } else if u < 0x10000 {
        3
    } else {
        4
    }
}

/// Byte offset of character position `i` inside `s[lo..]`.
pub fn byte_offset(s: &[char], lo: usize, i: usize) -> (n: usize)
    requires
        lo + i <= s@.len(),
        byte_len(s@.subrange(lo as int, lo + i)) <= usize::MAX,
    ensures
        n == byte_len(s@.subrange(lo as int, lo + i)),
{
    let slen = s.len();
    let mut n: usize = 0;
    let mut k: usize = 0;
    while k < i
        invariant
            slen == s@.len(),
            lo + i <= s@.len(),
            k <= i,
            byte_len(s@.subrange(lo as int, lo + i)) <= usize::MAX,
            n == byte_len(s@.subrange(lo as int, lo + k)),
        decreases i - k,
    {
        proof {
            let t = s@.subrange(lo as int, lo + k + 1);
            assert(t.drop_last() =~= s@.subrange(lo as int, lo + k));
            lemma_byte_len_subrange(s@.subrange(lo as int, lo + i), 0, k + 1);
            assert(s@.subrange(lo as int, lo + i).subrange(0, k + 1) =~= t);
        }
        n = n + utf8_width_exec(s[lo + k]);
        k = k + 1;
    }
    n
}

/// `str::find`: the byte index of the first occurrence of `pat`.
pub open spec fn find_byte(s: Seq<char>, pat: Seq<char>) -> Option<nat> {
    match find_char_index(s, pat) {
        Some(k) => Some(byte_len(s.subrange(0, k))),
        None => None,
    }
}

/// `str::find` on `s[lo..hi]`.
pub fn find_byte_in(s: &[char], lo: usize, hi: usize, pat: &[char]) -> (r: Option<usize>)
    requires
        lo <= hi <= s@.len(),
        byte_len(s@.subrange(lo as int, hi as int)) <= usize::MAX,
    ensures
        r matches Some(k) ==> find_byte(s@.subrange(lo as int, hi as int), pat@) == Some(k as nat),
        r is None ==> find_byte(s@.subrange(lo as int, hi as int), pat@) is None,
{
    match find_in(s, lo, hi, pat) {
        None => None,
        Some(k) => {
            proof {
                let t = s@.subrange(lo as int, hi as int);
                lemma_find_from(t, pat@, 0);
                lemma_byte_len_subrange(t, 0, k as int);
                assert(t.subrange(0, k as int) =~= s@.subrange(lo as int, lo + k));
            }
            Some(byte_offset(s, lo, k))
        },
    }
}

// ───────────────────────── lines ─────────────────────────

/// Position of the first `c` at or after `i`, or `s.len()` if there is none.
pub open spec fn index_of_from(s: Seq<char>, c: char, i: int) -> int
    decreases s.len() - i,
{
    if i >= s.len() {
        s.len() as int
    } else if i >= 0 && s[i] == c {
        i
    } else {
        index_of_from(s, c, i + 1)
    }
}

pub proof fn lemma_index_of_from(s: Seq<char>, c: char, i: int)
    requires
        0 <= i <= s.len(),
    ensures
        i <= index_of_from(s, c, i) <= s.len(),
        index_of_from(s, c, i) < s.len() ==> s[index_of_from(s, c, i)] == c,
        forall|j: int| i <= j < index_of_from(s, c, i) ==> s[j] != c,
    decreases s.len() - i,
{
    if i < s.len() && s[i] != c {
        lemma_index_of_from(s, c, i + 1);
    }
}

/// One trailing `'\r'` removed, if there is one.
pub open spec fn strip_cr(s: Seq<char>) -> Seq<char> {
    if s.len() > 0 && s.last() == '\r' {
        s.drop_last()
    } else {
        s
    }
}

/// `str::lines`: pieces ended by `'\n'` (a `'\r'` right before it is dropped);
/// a final piece without `'\n'` is kept as it is, and an empty rest gives no line.
pub open spec fn lines(s: Seq<char>) -> Seq<Seq<char>>
    decreases s.len(),
{
    if s.len() == 0 {
        Seq::empty()
    } else {
        let k = index_of_from(s, '\n', 0);
        if k >= s.len() {
            seq![s]
        } else {
            proof {
                lemma_index_of_from(s, '\n', 0);
            }
            seq![strip_cr(s.subrange(0, k))] + lines(s.subrange(k + 1, s.len() as int))
        }
    }
}

/// A piece without `'\n'` followed by `'\n'` is the first line.
pub proof fn lemma_lines_split(x: Seq<char>, r: Seq<char>)
    requires
        forall|i: int| 0 <= i < x.len() ==> x[i] != '\n',
    ensures
        lines(x + seq!['\n'] + r) == seq![strip_cr(x)] + lines(r),
{
    let s = x + seq!['\n'] + r;
    lemma_index_of_from(s, '\n', 0);
    let k = index_of_from(s, '\n', 0);
    assert(s[x.len() as int] == '\n');
    assert(k == x.len());
    assert(s.subrange(0, k) =~= x);
    assert(s.subrange(k + 1, s.len() as int) =~= r);
}

/// A non-empty text without `'\n'` is one line.
pub proof fn lemma_lines_single(x: Seq<char>)
    requires
        x.len() > 0,
        forall|i: int| 0 <= i < x.len() ==> x[i] != '\n',
    ensures
        lines(x) == seq![x],
{
    lemma_index_of_from(x, '\n', 0);
}

/// The first line of `s[start..]`: it is `s[start..end]`, and the remaining
/// lines begin at `next`.
pub fn next_line(s: &[char], start: usize) -> (r: (usize, usize))
    requires
        start < s@.len(),
    ensures
        start <= r.0 <= s@.len(),
        start < r.1 <= s@.len(),
        lines(s@.subrange(start as int, s@.len() as int)) == seq![
            s@.subrange(start as int, r.0 as int),
        ] + lines(s@.subrange(r.1 as int, s@.len() as int)),
{
    let n = s.len();
    let ghost t = s@.subrange(start as int, n as int);
    let mut j = start;
    while j < n && s[j] != '\n'
        invariant
            start <= j <= n == s@.len(),
            t == s@.subrange(start as int, n as int),
            index_of_from(t, '\n', 0) == index_of_from(t, '\n', j - start),
        decreases n - j,
    {
        j = j + 1;
    }
    proof {
        lemma_index_of_from(t, '\n', 0);
    }
    if j == n {
        assert(s@.subrange(n as int, n as int) =~= Seq::<char>::empty());
        assert(seq![t] + Seq::<Seq<char>>::empty() =~= seq![t]);
        (n, n)
    } else {
        assert(t.subrange(j - start + 1, t.len() as int) =~= s@.subrange(j + 1, n as int));
        assert(t.subrange(0, j - start) =~= s@.subrange(start as int, j as int));
        if j > start && s[j - 1] == '\r' {
            assert(s@.subrange(start as int, j as int).drop_last() =~= s@.subrange(
                start as int,
                j - 1,
            ));
            (j - 1, j + 1)
        } else {
            (j, j + 1)
        }
    }
}

// ───────────────────────── case folding ─────────────────────────

/// What `str::to_lowercase` returns for a string with these characters.
pub uninterp spec fn spec_to_lowercase(s: Seq<char>) -> Seq<char>;

/// Calls `str::to_lowercase`; the result is named by `spec_to_lowercase`.
#[verifier::external_body]
pub(crate) fn to_lowercase(s: &str) -> (r: String)
    ensures
        r@ == spec_to_lowercase(s@),
{
    s.to_lowercase()
}

} // verus!

verus! {

// ───────────────────────── decimal numbers ─────────────────────────

pub open spec fn digit_char(d: nat) -> char {
    if d == 0 { '0' } else if d == 1 { '1' } else if d == 2 { '2' } else if d == 3 { '3' }
    else if d == 4 { '4' } else if d == 5 { '5' } else if d == 6 { '6' } else if d == 7 { '7' }
    else if d == 8 { '8' } else { '9' }
}

/// The decimal digits of `n` (`Display` for unsigned integers).
pub open spec fn decimal(n: nat) -> Seq<char>
    decreases n,
{
    if n < 10 {
        seq![digit_char(n)]
    } else {
        decimal(n / 10).push(digit_char(n % 10))
    }
}

fn digit_exec(d: usize) -> (c: char)
    requires
        d < 10,
    ensures
        c == digit_char(d as nat),
{
    if d == 0 { '0' } else if d == 1 { '1' } else if d == 2 { '2' } else if d == 3 { '3' }
    else if d == 4 { '4' } else if d == 5 { '5' } else if d == 6 { '6' } else if d == 7 { '7' }
    else if d == 8 { '8' } else { '9' }
}

fn decimal_chars(n: usize) -> (v: Vec<char>)
    ensures
        v@ == decimal(n as nat),
    decreases n,
{
    if n < 10 {
        let mut v = Vec::new();
        v.push(digit_exec(n));
        v
    } else {
        let mut v = decimal_chars(n / 10);
        v.push(digit_exec(n % 10));
        v
    }
}

/// `n.to_string()` for an unsigned count.
pub fn decimal_string(n: usize) -> (s: String)
    ensures
        s@ == decimal(n as nat),
{
    let v = decimal_chars(n);
    string_of(v.as_slice())
}

/// `format!("{:02}", n)`: at least two digits, zero-padded.
pub open spec fn two_digits(n: nat) -> Seq<char> {
    if n < 10 {
        seq!['0'] + decimal(n)
    } else {
        decimal(n)
    }
}

pub fn two_digit_string(n: usize) -> (s: String)
    ensures
        s@ == two_digits(n as nat),
{
    let mut v: Vec<char> = Vec::new();
    if n < 10 {
        v.push('0');
    }
    let d = decimal_chars(n);
    let mut i: usize = 0;
    let ghost start = v@;
    while i < d.len()
        invariant
            i <= d@.len(),
            v@ == start + d@.subrange(0, i as int),
        decreases d.len() - i,
    {
        v.push(d[i]);
        i = i + 1;
        assert(v@ =~= start + d@.subrange(0, i as int));
    }
    assert(d@.subrange(0, d@.len() as int) =~= d@);
    if n >= 10 {
        assert(start + d@ =~= d@);
    }
    string_of(v.as_slice())
}

// ───────────────────────── building text ─────────────────────────

/// Whether two strings hold the same characters.
pub fn same_text(a: &str, b: &str) -> (r: bool)
    ensures
        r == (a@ == b@),
{
    let x = chars_of(a);
    let y = chars_of(b);
    if x.len() != y.len() {
        return false;
    }
    let mut i: usize = 0;
    while i < x.len()
        invariant
            x@ == a@,
            y@ == b@,
            x@.len() == y@.len(),
            i <= x@.len(),
            forall|k: int| 0 <= k < i ==> x@[k] == y@[k],
        decreases x.len() - i,
    {
        if x[i] != y[i] {
            assert(x@[i as int] != y@[i as int]);
            return false;
        }
        i = i + 1;
    }
    assert(x@ =~= y@);
    true
}

} // verus!

verus! {

/// Appends the characters of `s`.
pub fn push_str(v: &mut Vec<char>, s: &str)
    ensures
        final(v)@ == old(v)@ + s@,
{
    let w = chars_of(s);
    let ghost start = v@;
    let mut i: usize = 0;
    while i < w.len()
        invariant
            i <= w@.len(),
            v@ == start + w@.subrange(0, i as int),
        decreases w.len() - i,
    {
        v.push(w[i]);
        i = i + 1;
        assert(v@ =~= start + w@.subrange(0, i as int));
    }
    assert(w@.subrange(0, w@.len() as int) =~= w@);
}

/// An owned copy of a literal.
pub fn owned(s: &str) -> (r: String)
    ensures
        r@ == s@,
{
    s.to_owned()
}

} // verus!

verus! {

// ───────────────────────── words ─────────────────────────

/// Position of the first whitespace character at or after `i`, or `s.len()`.
pub open spec fn ws_index_from(s: Seq<char>, i: int) -> int
    decreases s.len() - i,
{
    if i >= s.len() {
        s.len() as int
    } else if i >= 0 && is_ws(s[i]) {
        i
    } else {
        ws_index_from(s, i + 1)
    }
}

pub proof fn lemma_ws_index_from(s: Seq<char>, i: int)
    requires
        0 <= i <= s.len(),
    ensures
        i <= ws_index_from(s, i) <= s.len(),
        ws_index_from(s, i) < s.len() ==> is_ws(s[ws_index_from(s, i)]),
        forall|j: int| i <= j < ws_index_from(s, i) ==> !is_ws(s[j]),
    decreases s.len() - i,
{
    if i < s.len() && !is_ws(s[i]) {
        lemma_ws_index_from(s, i + 1);
    }
}

pub proof fn lemma_trim_start_len(s: Seq<char>)
    ensures
        trim_start(s).len() <= s.len(),
        trim_start(s).len() > 0 ==> !is_ws(trim_start(s)[0]),
    decreases s.len(),
{
    if s.len() > 0 && is_ws(s[0]) {
        lemma_trim_start_len(s.drop_first());
    }
}

/// `str::split_whitespace`: the maximal runs of non-whitespace characters.
pub open spec fn words(s: Seq<char>) -> Seq<Seq<char>>
    decreases s.len(),
{
    let t = trim_start(s);
    if t.len() == 0 {
        Seq::empty()
    } else {
        proof {
            lemma_trim_start_len(s);
            lemma_ws_index_from(t, 0);
        }
        let k = ws_index_from(t, 0);
        seq![t.subrange(0, k)] + words(t.subrange(k, t.len() as int))
    }
}

/// The words of `s[lo..hi]`, as strings.
pub fn words_in(s: &[char], lo: usize, hi: usize) -> (r: Vec<String>)
    requires
        lo <= hi <= s@.len(),
    ensures
        r@.map_values(|w: String| w@) == words(s@.subrange(lo as int, hi as int)),
{
    let mut out: Vec<String> = Vec::new();
    let mut i = lo;
    assert(out@.map_values(|w: String| w@) + words(s@.subrange(lo as int, hi as int)) =~= words(
        s@.subrange(lo as int, hi as int),
    ));
    while i < hi
        invariant
            lo <= i <= hi <= s@.len(),
            words(s@.subrange(lo as int, hi as int)) == out@.map_values(|w: String| w@) + words(
                s@.subrange(i as int, hi as int),
            ),
        decreases hi - i,
    {
        // skip whitespace
        let mut a = i;
        while a < hi && whitespace(s[a])
            invariant
                i <= a <= hi <= s@.len(),
                trim_start(s@.subrange(i as int, hi as int)) == trim_start(
                    s@.subrange(a as int, hi as int),
                ),
            decreases hi - a,
        {
            assert(s@.subrange(a as int, hi as int).drop_first() =~= s@.subrange(
                a + 1,
                hi as int,
            ));
            a = a + 1;
        }
        let ghost t = s@.subrange(a as int, hi as int);
        assert(trim_start(t) == t);
        if a == hi {
            assert(t.len() == 0);
            assert(words(s@.subrange(i as int, hi as int)) =~= Seq::<Seq<char>>::empty());
            assert(s@.subrange(hi as int, hi as int) =~= t);
            i = hi;
        } else {
            let mut b = a;
            while b < hi && !whitespace(s[b])
                invariant
                    a <= b <= hi <= s@.len(),
                    t == s@.subrange(a as int, hi as int),
                    ws_index_from(t, 0) == ws_index_from(t, b - a),
                decreases hi - b,
            {
                b = b + 1;
            }
            let w = string_of_range(s, a, b);
            let ghost old_out = out@.map_values(|w: String| w@);
            out.push(w);
            proof {
                assert(t.subrange(0, b - a) =~= s@.subrange(a as int, b as int));
                assert(t.subrange(b - a, t.len() as int) =~= s@.subrange(b as int, hi as int));
                assert(out@.map_values(|w: String| w@) =~= old_out.push(
                    s@.subrange(a as int, b as int),
                ));
                assert(old_out.push(s@.subrange(a as int, b as int)) + words(
                    s@.subrange(b as int, hi as int),
                ) =~= old_out + (seq![s@.subrange(a as int, b as int)] + words(
                    s@.subrange(b as int, hi as int),
                )));
            }
            i = b;
        }
    }
    assert(s@.subrange(hi as int, hi as int) =~= Seq::<char>::empty());
    assert(words(Seq::<char>::empty()) =~= Seq::<Seq<char>>::empty());
    assert(out@.map_values(|w: String| w@) + Seq::<Seq<char>>::empty() =~= out@.map_values(
        |w: String| w@,
    ));
    out
}

} // verus!

verus! {

/// The character sequences of a list of strings.
pub open spec fn strings_view(v: Seq<String>) -> Seq<Seq<char>> {
    v.map_values(|s: String| s@)
}

/// Appends an owned copy of `s` to a list of strings.
pub fn push_owned(v: &mut Vec<String>, s: &str)
    ensures
        strings_view(final(v)@) == strings_view(old(v)@).push(s@),
{
    v.push(owned(s));
    assert(strings_view(v@) =~= strings_view(old(v)@).push(s@));
}

} // verus!
