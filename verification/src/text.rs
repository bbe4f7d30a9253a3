//! Character-level text operations with exact specifications over `Seq<char>`.

use vstd::prelude::*;

verus! {

/// std's `String::push`: the character is appended at the end of the
/// string, and the characters before it stay as they are.
pub assume_specification[ String::push ](s: &mut String, c: char)
    ensures
        final(s)@ == old(s)@.push(c),
;

/// The characters that carry the Unicode property `White_Space`.
pub open spec fn is_space(c: char) -> bool {
    let n = c as u32;
    ||| 0x09 <= n <= 0x0D
    ||| n == 0x20
    ||| n == 0x85
    ||| n == 0xA0
    ||| n == 0x1680
    ||| 0x2000 <= n <= 0x200A
    ||| n == 0x2028
    ||| n == 0x2029
    ||| n == 0x202F
    ||| n == 0x205F
    ||| n == 0x3000
}

/// The first index at or after `i` that holds no white space, or the length.
pub open spec fn skip_spaces(s: Seq<char>, i: int) -> int
    decreases s.len() - i,
{
    if 0 <= i < s.len() && is_space(s[i]) {
        skip_spaces(s, i + 1)
    } else {
        i
    }
}

/// The end of `s[lo..j]` once its trailing white space is dropped.
pub open spec fn drop_trailing_spaces(s: Seq<char>, lo: int, j: int) -> int
    decreases j,
{
    if 0 <= lo < j <= s.len() && is_space(s[j - 1]) {
        drop_trailing_spaces(s, lo, j - 1)
    } else {
        j
    }
}

/// `s` without its leading and trailing white space.
pub open spec fn trimmed(s: Seq<char>) -> Seq<char> {
    let a = skip_spaces(s, 0);
    s.subrange(a, drop_trailing_spaces(s, a, s.len() as int))
}

/// Whether `s` begins with `p`.
pub open spec fn has_prefix(s: Seq<char>, p: Seq<char>) -> bool {
    p.len() <= s.len() && s.subrange(0, p.len() as int) == p
}

/// Whether `s` ends with `p`.
pub open spec fn has_suffix(s: Seq<char>, p: Seq<char>) -> bool {
    p.len() <= s.len() && s.subrange(s.len() - p.len(), s.len() as int) == p
}

/// The first index at or after `i` that holds `c`, or the length.
pub open spec fn find_char(s: Seq<char>, c: char, i: int) -> int
    decreases s.len() - i,
{
    if 0 <= i < s.len() && s[i] != c {
        find_char(s, c, i + 1)
    } else {
        i
    }
}

/// The last index below `j` that holds `c`, or -1.
pub open spec fn rfind_char(s: Seq<char>, c: char, j: int) -> int
    decreases j,
{
    if 0 < j <= s.len() && s[j - 1] != c {
        rfind_char(s, c, j - 1)
    } else {
        j - 1
    }
}

/// The first index at or after `i` that holds white space, or the length.
pub open spec fn skip_word(s: Seq<char>, i: int) -> int
    decreases s.len() - i,
{
    if 0 <= i < s.len() && !is_space(s[i]) {
        skip_word(s, i + 1)
    } else {
        i
    }
}

/// The pieces of `s` from index `i` on that `c` separates, `c` left out; a
/// `c` at the very end opens no further piece.
pub open spec fn pieces_from(s: Seq<char>, c: char, i: int) -> Seq<Seq<char>>
    decreases s.len() - i,
{
    let e = find_char(s, c, i);
    if 0 <= i <= e < s.len() {
        seq![s.subrange(i, e)] + pieces_from(s, c, e + 1)
    } else if 0 <= i < s.len() {
        seq![s.subrange(i, s.len() as int)]
    } else {
        Seq::empty()
    }
}

/// The lines of `s`: the pieces that line feeds separate.
pub open spec fn lines_of(s: Seq<char>) -> Seq<Seq<char>> {
    pieces_from(s, '\n', 0)
}

/// The views of a sequence of character vectors.
pub open spec fn views(v: Seq<Vec<char>>) -> Seq<Seq<char>> {
    Seq::new(v.len(), |i: int| v[i]@)
}

/// The views of a sequence of strings.
pub open spec fn string_views(v: Seq<String>) -> Seq<Seq<char>> {
    Seq::new(v.len(), |i: int| v[i]@)
}

/// Trimmed text is a piece of the text with nothing but white space
/// before and behind it, and it neither begins nor ends with white space.
pub proof fn lemma_trimmed_is_the_text_between_spaces(s: Seq<char>)
    ensures
        0 <= skip_spaces(s, 0) <= drop_trailing_spaces(s, skip_spaces(s, 0), s.len() as int)
            <= s.len(),
        forall|k: int| 0 <= k < skip_spaces(s, 0) ==> is_space(s[k]),
        forall|k: int|
            drop_trailing_spaces(s, skip_spaces(s, 0), s.len() as int) <= k < s.len() ==> is_space(
                s[k],
            ),
        trimmed(s).len() > 0 ==> !is_space(trimmed(s).first()) && !is_space(trimmed(s).last()),
{
    lemma_leading_spaces(s, 0);
    lemma_trailing_spaces(s, skip_spaces(s, 0), s.len() as int);
}

/// Everything from `i` up to where the white space ends is white space,
/// and what follows is none.
pub proof fn lemma_leading_spaces(s: Seq<char>, i: int)
    requires
        0 <= i <= s.len(),
    ensures
        i <= skip_spaces(s, i) <= s.len(),
        forall|k: int| i <= k < skip_spaces(s, i) ==> is_space(s[k]),
        skip_spaces(s, i) < s.len() ==> !is_space(s[skip_spaces(s, i)]),
    decreases s.len() - i,
{
    if i < s.len() && is_space(s[i]) {
        lemma_leading_spaces(s, i + 1);
    }
}

/// Everything from where the trailing white space begins up to `j` is white
/// space, and what stands before is none.
pub proof fn lemma_trailing_spaces(s: Seq<char>, lo: int, j: int)
    requires
        0 <= lo <= j <= s.len(),
    ensures
        lo <= drop_trailing_spaces(s, lo, j) <= j,
        forall|k: int| drop_trailing_spaces(s, lo, j) <= k < j ==> is_space(s[k]),
        lo < drop_trailing_spaces(s, lo, j) ==> !is_space(s[drop_trailing_spaces(s, lo, j) - 1]),
    decreases j,
{
    if lo < j && is_space(s[j - 1]) {
        lemma_trailing_spaces(s, lo, j - 1);
    }
}

/// Everything from `i` up to where the word ends is no white space.
pub proof fn lemma_word(s: Seq<char>, i: int)
    requires
        0 <= i <= s.len(),
    ensures
        i <= skip_word(s, i) <= s.len(),
        forall|k: int| i <= k < skip_word(s, i) ==> !is_space(s[k]),
        skip_word(s, i) < s.len() ==> is_space(s[skip_word(s, i)]),
    decreases s.len() - i,
{
    if i < s.len() && !is_space(s[i]) {
        lemma_word(s, i + 1);
    }
}

/// The last `c` below `j` is found where it is: no `c` stands between
/// it and `j`, and without any `c` below `j` the result is -1.
pub proof fn lemma_rfind_char_bounds(s: Seq<char>, c: char, j: int)
    requires
        0 <= j <= s.len(),
    ensures
        -1 <= rfind_char(s, c, j) < j,
        forall|k: int| rfind_char(s, c, j) < k < j ==> s[k] != c,
        0 <= rfind_char(s, c, j) ==> s[rfind_char(s, c, j)] == c,
    decreases j,
{
    if 0 < j && s[j - 1] != c {
        lemma_rfind_char_bounds(s, c, j - 1);
    }
}

/// Whether `c` is white space.
pub fn is_whitespace(c: char) -> (b: bool)
    ensures
        b == is_space(c),
{
    let n: u32 = c as u32;
    (0x09 <= n && n <= 0x0D) || n == 0x20 || n == 0x85 || n == 0xA0 || n == 0x1680 || (0x2000 <= n
        && n <= 0x200A) || n == 0x2028 || n == 0x2029 || n == 0x202F || n == 0x205F || n == 0x3000
}

/// The characters of `s`, in order.
pub fn to_chars(s: &str) -> (out: Vec<char>)
    ensures
        out@ == s@,
{
    let mut out: Vec<char> = Vec::new();
    for c in it: s.chars()
        invariant
            out@ == it.seq().take(it.index()),
    {
        out.push(c);
    }
    out
}

/// The string made of the characters of `chars`, in order.
pub fn from_chars(chars: &Vec<char>) -> (out: String)
    ensures
        out@ == chars@,
{
    let mut out = String::new();
    let mut i: usize = 0;
    while i < chars.len()
        invariant
            i <= chars.len(),
            out@ == chars@.take(i as int),
        decreases chars.len() - i,
    {
        out.push(chars[i]);
        i += 1;
    }
    out
}

/// The characters of `v` from index `a` up to index `b`.
pub(crate) fn slice(v: &Vec<char>, a: usize, b: usize) -> (out: Vec<char>)
    requires
        a <= b <= v.len(),
    ensures
        out@ == v@.subrange(a as int, b as int),
{
    let mut out: Vec<char> = Vec::new();
    let mut i: usize = a;
    while i < b
        invariant
            a <= i <= b <= v.len(),
            out@ == v@.subrange(a as int, i as int),
        decreases b - i,
    {
        out.push(v[i]);
        i += 1;
    }
    out
}

/// The index of the first character at or after `i` that is no white space.
pub(crate) fn skip_spaces_at(v: &Vec<char>, i: usize) -> (k: usize)
    requires
        i <= v.len(),
    ensures
        k == skip_spaces(v@, i as int),
        i <= k <= v.len(),
{
    let mut k: usize = i;
    while k < v.len() && is_whitespace(v[k])
        invariant
            i <= k <= v.len(),
            skip_spaces(v@, k as int) == skip_spaces(v@, i as int),
        decreases v.len() - k,
    {
        k += 1;
    }
    k
}

/// The index of the first white space at or after `i`.
pub(crate) fn skip_word_at(v: &Vec<char>, i: usize) -> (k: usize)
    requires
        i <= v.len(),
    ensures
        k == skip_word(v@, i as int),
        i <= k <= v.len(),
{
    let mut k: usize = i;
    while k < v.len() && !is_whitespace(v[k])
        invariant
            i <= k <= v.len(),
            skip_word(v@, k as int) == skip_word(v@, i as int),
        decreases v.len() - k,
    {
        k += 1;
    }
    k
}

/// `v` without its leading and trailing white space.
pub fn trim(v: &Vec<char>) -> (out: Vec<char>)
    ensures
        out@ == trimmed(v@),
{
    let a = skip_spaces_at(v, 0);
    let mut b: usize = v.len();
    while b > a && is_whitespace(v[b - 1])
        invariant
            a <= b <= v.len(),
            drop_trailing_spaces(v@, a as int, b as int) == drop_trailing_spaces(
                v@,
                a as int,
                v.len() as int,
            ),
        decreases b,
    {
        b -= 1;
    }
    slice(v, a, b)
}

/// Whether `v` begins with the characters of `p`.
pub fn starts_with(v: &Vec<char>, p: &str) -> (b: bool)
    ensures
        b == has_prefix(v@, p@),
{
    let pat = to_chars(p);
    if pat.len() > v.len() {
        return false;
    }
    let mut i: usize = 0;
    while i < pat.len()
        invariant
            i <= pat.len() <= v.len(),
            pat@ == p@,
            v@.subrange(0, i as int) == pat@.subrange(0, i as int),
        decreases pat.len() - i,
    {
        if v[i] != pat[i] {
            proof {
                assert(v@.subrange(0, pat.len() as int)[i as int] == v@[i as int]);
            }
            return false;
        }
        proof {
            assert(v@.subrange(0, i + 1) == v@.subrange(0, i as int).push(v@[i as int]));
            assert(pat@.subrange(0, i + 1) == pat@.subrange(0, i as int).push(pat@[i as int]));
        }
        i += 1;
    }
    proof {
        assert(pat@.subrange(0, pat.len() as int) == pat@);
    }
    true
}

/// Whether `v` ends with the characters of `p`.
pub fn ends_with(v: &Vec<char>, p: &str) -> (b: bool)
    ensures
        b == has_suffix(v@, p@),
{
    let pat = to_chars(p);
    if pat.len() > v.len() {
        return false;
    }
    let off: usize = v.len() - pat.len();
    let mut i: usize = 0;
    while i < pat.len()
        invariant
            i <= pat.len() <= v.len(),
            off == v.len() - pat.len(),
            pat@ == p@,
            v@.subrange(off as int, off + i) == pat@.subrange(0, i as int),
        decreases pat.len() - i,
    {
        if v[off + i] != pat[i] {
            proof {
                assert(v@.subrange(off as int, v.len() as int)[i as int] == v@[off + i]);
            }
            return false;
        }
        proof {
            assert(v@.subrange(off as int, off + i + 1) == v@.subrange(off as int, off + i).push(
                v@[off + i],
            ));
            assert(pat@.subrange(0, i + 1) == pat@.subrange(0, i as int).push(pat@[i as int]));
        }
        i += 1;
    }
    proof {
        assert(pat@.subrange(0, pat.len() as int) == pat@);
    }
    true
}

/// The index of the first `c` at or after `i`, or the length.
pub(crate) fn find_char_at(v: &Vec<char>, c: char, i: usize) -> (k: usize)
    requires
        i <= v.len(),
    ensures
        k == find_char(v@, c, i as int),
        i <= k <= v.len(),
{
    let mut k: usize = i;
    while k < v.len() && v[k] != c
        invariant
            i <= k <= v.len(),
            find_char(v@, c, k as int) == find_char(v@, c, i as int),
        decreases v.len() - k,
    {
        k += 1;
    }
    k
}

/// The index of the last `c` in `v`, if there is one.
pub fn rfind_char_in(v: &Vec<char>, c: char) -> (r: Option<usize>)
    ensures
        match r {
            Some(k) => k == rfind_char(v@, c, v.len() as int),
            None => rfind_char(v@, c, v.len() as int) == -1,
        },
{
    let mut j: usize = v.len();
    while j > 0 && v[j - 1] != c
        invariant
            j <= v.len(),
            rfind_char(v@, c, j as int) == rfind_char(v@, c, v.len() as int),
        decreases j,
    {
        j -= 1;
    }
    if j == 0 {
        None
    } else {
        Some(j - 1)
    }
}

/// The pieces of `v` that `c` separates.
pub fn split(v: &Vec<char>, c: char) -> (out: Vec<Vec<char>>)
    ensures
        views(out@) == pieces_from(v@, c, 0),
{
    let mut out: Vec<Vec<char>> = Vec::new();
    let mut i: usize = 0;
    while i < v.len()
        invariant
            i <= v.len(),
            views(out@) + pieces_from(v@, c, i as int) == pieces_from(v@, c, 0),
        decreases v.len() - i,
    {
        let e = find_char_at(v, c, i);
        let piece = slice(v, i, e);
        proof {
            assert(views(out@.push(piece)) == views(out@) + seq![piece@]);
            assert(views(out@.push(piece)) + pieces_from(v@, c, e + 1) == views(out@) + (seq![
                piece@,
            ] + pieces_from(v@, c, e + 1)));
            assert(pieces_from(v@, c, v.len() as int) == Seq::<Seq<char>>::empty());
            assert(seq![piece@] + Seq::<Seq<char>>::empty() == seq![piece@]);
        }
        out.push(piece);
        if e == v.len() {
            i = e;
        } else {
            i = e + 1;
        }
    }
    proof {
        assert(views(out@) + Seq::<Seq<char>>::empty() == views(out@));
    }
    out
}

/// The lines of `v`.
pub fn lines(v: &Vec<char>) -> (out: Vec<Vec<char>>)
    ensures
        views(out@) == lines_of(v@),
{
    split(v, '\n')
}

/// Whether `v` holds exactly the characters of `p`.
pub fn is_text(v: &Vec<char>, p: &str) -> (r: bool)
    ensures
        r == (v@ == p@),
{
    let same = starts_with(v, p);
    let wanted = to_chars(p);
    proof {
        if v@.len() == p@.len() {
            assert(v@.subrange(0, v@.len() as int) == v@);
        }
    }
    same && v.len() == wanted.len()
}

/// Whether `a` and `b` hold the same characters.
pub fn same_text(a: &str, b: &str) -> (r: bool)
    ensures
        r == (a@ == b@),
{
    let x = to_chars(a);
    let y = to_chars(b);
    if x.len() != y.len() {
        return false;
    }
    let mut i: usize = 0;
    while i < x.len()
        invariant
            i <= x.len() == y.len(),
            x@ == a@,
            y@ == b@,
            forall|k: int| 0 <= k < i ==> x@[k] == y@[k],
        decreases x.len() - i,
    {
        if x[i] != y[i] {
            return false;
        }
        i += 1;
    }
    proof {
        assert(x@ =~= y@);
    }
    true
}

/// `a` followed by `b`.
pub fn concat(a: &Vec<char>, b: &Vec<char>) -> (out: Vec<char>)
    ensures
        out@ == a@ + b@,
{
    let mut out = slice(a, 0, a.len());
    let mut i: usize = 0;
    proof {
        assert(a@.subrange(0, a.len() as int) == a@);
    }
    while i < b.len()
        invariant
            i <= b.len(),
            out@ == a@ + b@.subrange(0, i as int),
        decreases b.len() - i,
    {
        proof {
            assert(b@.subrange(0, i + 1) == b@.subrange(0, i as int).push(b@[i as int]));
        }
        out.push(b[i]);
        i += 1;
    }
    proof {
        assert(b@.subrange(0, b.len() as int) == b@);
    }
    out
}

} // verus!
