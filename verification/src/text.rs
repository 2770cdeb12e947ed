//! Character-level text operations with their mathematical meaning.
//!
//! Strings are handled as sequences of `char`, the view Verus gives to
//! `str` and `String`. Each operation mirrors the standard-library method
//! of the same purpose (`trim`, `find`, `split`, ...), stated over `Seq<char>`.
use vstd::prelude::*;

verus! {

/// Unicode `White_Space`, the set that `char::is_whitespace` tests.
pub open spec fn is_ws(c: char) -> bool {
    let n = c as u32;
    ||| 0x9 <= n <= 0xd
    ||| n == 0x20
    ||| n == 0x85
    ||| n == 0xa0
    ||| n == 0x1680
    ||| 0x2000 <= n <= 0x200a
    ||| n == 0x2028
    ||| n == 0x2029
    ||| n == 0x202f
    ||| n == 0x205f
    ||| n == 0x3000
}

pub open spec fn ascii_lower(c: char) -> char {
    if 'A' <= c && c <= 'Z' {
        ((c as u32) + 32) as char
    } else {
        c
    }
}

pub open spec fn lower(s: Seq<char>) -> Seq<char> {
    s.map_values(|c: char| ascii_lower(c))
}

pub open spec fn is_digit(c: char) -> bool {
    '0' <= c && c <= '9'
}

pub open spec fn is_hex_digit(c: char) -> bool {
    ||| '0' <= c && c <= '9'
    ||| 'a' <= c && c <= 'f'
    ||| 'A' <= c && c <= 'F'
}

/// `s` with its leading white space removed (`str::trim_start`).
pub open spec fn trim_start(s: Seq<char>) -> Seq<char>
    decreases s.len(),
{
    if s.len() > 0 && is_ws(s[0]) {
        trim_start(s.drop_first())
    } else {
        s
    }
}

/// `s` with its trailing white space removed (`str::trim_end`).
pub open spec fn trim_end(s: Seq<char>) -> Seq<char>
    decreases s.len(),
{
    if s.len() > 0 && is_ws(s.last()) {
        trim_end(s.drop_last())
    } else {
        s
    }
}

/// `str::trim`.
pub open spec fn trim(s: Seq<char>) -> Seq<char> {
    trim_end(trim_start(s))
}

/// `c` removed repeatedly from both ends (`str::trim_matches(c)`).
pub open spec fn trim_char_start(s: Seq<char>, c: char) -> Seq<char>
    decreases s.len(),
{
    if s.len() > 0 && s[0] == c {
        trim_char_start(s.drop_first(), c)
    } else {
        s
    }
}

pub open spec fn trim_char_end(s: Seq<char>, c: char) -> Seq<char>
    decreases s.len(),
{
    if s.len() > 0 && s.last() == c {
        trim_char_end(s.drop_last(), c)
    } else {
        s
    }
}

pub open spec fn trim_char(s: Seq<char>, c: char) -> Seq<char> {
    trim_char_end(trim_char_start(s, c), c)
}

pub open spec fn starts_with(s: Seq<char>, p: Seq<char>) -> bool {
    p.len() <= s.len() && s.take(p.len() as int) == p
}

pub open spec fn ends_with(s: Seq<char>, p: Seq<char>) -> bool {
    p.len() <= s.len() && s.skip(s.len() - p.len()) == p
}

/// `pat` occurs in `s` at index `i`.
pub open spec fn occurs_at(s: Seq<char>, pat: Seq<char>, i: int) -> bool {
    0 <= i && i + pat.len() <= s.len() && s.subrange(i, i + pat.len()) == pat
}

/// The first index at or after `i` where `pat` occurs.
pub open spec fn find_from(s: Seq<char>, pat: Seq<char>, i: int) -> Option<int>
    decreases s.len() + 1 - i,
{
    if i < 0 || i + pat.len() > s.len() {
        None
    } else if occurs_at(s, pat, i) {
        Some(i)
    } else {
        find_from(s, pat, i + 1)
    }
}

/// `str::find` with a string pattern, as a char index.
pub open spec fn find(s: Seq<char>, pat: Seq<char>) -> Option<int> {
    find_from(s, pat, 0)
}

pub open spec fn contains(s: Seq<char>, pat: Seq<char>) -> bool {
    find(s, pat) is Some
}

/// `str::split_once` with a string pattern.
pub open spec fn split_once(s: Seq<char>, pat: Seq<char>) -> Option<(Seq<char>, Seq<char>)> {
    match find(s, pat) {
        Some(i) => Some((s.take(i), s.skip(i + pat.len()))),
        None => None,
    }
}

/// The last index below `i` that holds `c`.
pub open spec fn rfind_char_below(s: Seq<char>, c: char, i: int) -> Option<int>
    decreases i,
{
    if i <= 0 || i > s.len() {
        None
    } else if s[i - 1] == c {
        Some(i - 1)
    } else {
        rfind_char_below(s, c, i - 1)
    }
}

/// `str::rsplit_once` with a char pattern.
pub open spec fn rsplit_once_char(s: Seq<char>, c: char) -> Option<(Seq<char>, Seq<char>)> {
    match rfind_char_below(s, c, s.len() as int) {
        Some(i) => Some((s.take(i), s.skip(i + 1))),
        None => None,
    }
}

/// Separators that `split` accepts.
pub enum Sep {
    Char(char),
    CommaOrSemicolon,
    Whitespace,
}

pub open spec fn sep_matches(sep: Sep, c: char) -> bool {
    match sep {
        Sep::Char(d) => c == d,
        Sep::CommaOrSemicolon => c == ',' || c == ';',
        Sep::Whitespace => is_ws(c),
    }
}

/// Index of the first separator at or after `i`, or `s.len()` when none.
pub open spec fn next_sep(s: Seq<char>, sep: Sep, i: int) -> int
    decreases s.len() - i,
{
    if i < 0 || i >= s.len() {
        s.len() as int
    } else if sep_matches(sep, s[i]) {
        i
    } else {
        next_sep(s, sep, i + 1)
    }
}

pub proof fn lemma_next_sep(s: Seq<char>, sep: Sep, i: int)
    requires
        0 <= i <= s.len(),
    ensures
        i <= next_sep(s, sep, i) <= s.len(),
        next_sep(s, sep, i) < s.len() ==> sep_matches(sep, s[next_sep(s, sep, i)]),
        forall|k: int| i <= k < next_sep(s, sep, i) ==> !sep_matches(sep, #[trigger] s[k]),
    decreases s.len() - i,
{
    if i < s.len() && !sep_matches(sep, s[i]) {
        lemma_next_sep(s, sep, i + 1);
    }
}

/// The pieces of `s` from index `i` on, cut at each separator (`str::split`).
pub open spec fn split_from(s: Seq<char>, sep: Sep, i: int) -> Seq<Seq<char>>
    decreases s.len() - i,
{
    if i < 0 || i > s.len() {
        Seq::empty()
    } else {
        let j = next_sep(s, sep, i);
        proof {
            lemma_next_sep(s, sep, i);
        }
        if j >= s.len() {
            seq![s.subrange(i, s.len() as int)]
        } else {
            seq![s.subrange(i, j)].add(split_from(s, sep, j + 1))
        }
    }
}

/// `str::split` with a char separator.
pub open spec fn split(s: Seq<char>, sep: Sep) -> Seq<Seq<char>> {
    split_from(s, sep, 0)
}

/// `str::split_whitespace`: the non-empty pieces between white space.
pub open spec fn words(s: Seq<char>) -> Seq<Seq<char>> {
    split(s, Sep::Whitespace).filter(|w: Seq<char>| w.len() > 0)
}

/// The pieces of `parts` joined with `glue` between them (`[T]::join`).
pub open spec fn join(parts: Seq<Seq<char>>, glue: Seq<char>) -> Seq<char>
    decreases parts.len(),
{
    if parts.len() == 0 {
        Seq::empty()
    } else if parts.len() == 1 {
        parts[0]
    } else {
        join(parts.drop_last(), glue) + glue + parts.last()
    }
}

/// The character sequences held by a vector of character vectors.
pub open spec fn vviews(v: Seq<Vec<char>>) -> Seq<Seq<char>> {
    v.map_values(|x: Vec<char>| x@)
}

// ---------------------------------------------------------------------------
// Conversions between `str`/`String` and `Vec<char>`.

pub fn chars_of(s: &str) -> (v: Vec<char>)
    ensures
        v@ == s@,
{
    let mut v: Vec<char> = Vec::new();
    for c in it: s.chars()
        invariant
            v@ == it.seq().take(it.index() as int),
    {
        v.push(c);
    }
    v
}

/// Builds a `String` from its characters (`FromIterator<&char> for String`).
#[verifier::external_body]
pub(crate) fn string_of(v: &[char]) -> (s: String)
    ensures
        s@ == v@,
{
    v.iter().collect()
}

pub fn str_to_string(s: &str) -> (r: String)
    ensures
        r@ == s@,
{
    s.to_owned()
}

// ---------------------------------------------------------------------------
// Executable counterparts.

pub fn is_ws_char(c: char) -> (r: bool)
    ensures
        r == is_ws(c),
{
    let n = c as u32;
    (0x9 <= n && n <= 0xd) || n == 0x20 || n == 0x85 || n == 0xa0 || n == 0x1680 || (0x2000
        <= n && n <= 0x200a) || n == 0x2028 || n == 0x2029 || n == 0x202f || n == 0x205f || n
        == 0x3000
}

pub fn ascii_lower_char(c: char) -> (r: char)
    ensures
        r == ascii_lower(c),
{
    if 'A' <= c && c <= 'Z' {
        ((c as u8) + 32) as char
    } else {
        c
    }
}

pub fn is_digit_char(c: char) -> (r: bool)
    ensures
        r == is_digit(c),
{
    '0' <= c && c <= '9'
}

pub fn is_hex_digit_char(c: char) -> (r: bool)
    ensures
        r == is_hex_digit(c),
{
    ('0' <= c && c <= '9') || ('a' <= c && c <= 'f') || ('A' <= c && c <= 'F')
}

/// `s[lo..hi]` as a new vector.
pub fn slice_of(s: &Vec<char>, lo: usize, hi: usize) -> (r: Vec<char>)
    requires
        lo <= hi <= s.len(),
    ensures
        r@ == s@.subrange(lo as int, hi as int),
{
    let mut r: Vec<char> = Vec::new();
    let mut i = lo;
    while i < hi
        invariant
            lo <= i <= hi <= s.len(),
            r@ == s@.subrange(lo as int, i as int),
        decreases hi - i,
    {
        r.push(s[i]);
        i += 1;
    }
    r
}

pub fn seq_equal(a: &Vec<char>, b: &Vec<char>) -> (r: bool)
    ensures
        r == (a@ == b@),
{
    if a.len() != b.len() {
        return false;
    }
    let mut i: usize = 0;
    while i < a.len()
        invariant
            a.len() == b.len(),
            i <= a.len(),
            forall|k: int| 0 <= k < i ==> a@[k] == b@[k],
        decreases a.len() - i,
    {
        if a[i] != b[i] {
            return false;
        }
        i += 1;
    }
    assert(a@ =~= b@);
    true
}

pub fn eq_str(a: &Vec<char>, b: &str) -> (r: bool)
    ensures
        r == (a@ == b@),
{
    let bv = chars_of(b);
    seq_equal(a, &bv)
}

pub fn lower_vec(s: &Vec<char>) -> (r: Vec<char>)
    ensures
        r@ == lower(s@),
{
    let mut r: Vec<char> = Vec::new();
    let mut i: usize = 0;
    while i < s.len()
        invariant
            i <= s.len(),
            r@ == lower(s@.take(i as int)),
        decreases s.len() - i,
    {
        let c = ascii_lower_char(s[i]);
        r.push(c);
        i += 1;
        assert(lower(s@.take(i as int)) =~= lower(s@.take(i - 1)).push(ascii_lower(s@[i - 1])));
    }
    assert(s@.take(s.len() as int) =~= s@);
    r
}

pub proof fn lemma_trim_start_skip(s: Seq<char>, i: int)
    requires
        0 <= i <= s.len(),
        forall|k: int| 0 <= k < i ==> is_ws(#[trigger] s[k]),
    ensures
        trim_start(s) == trim_start(s.skip(i)),
    decreases i,
{
    if i > 0 {
        assert(is_ws(s[0]));
        lemma_trim_start_skip(s.drop_first(), i - 1);
        assert(s.drop_first().skip(i - 1) =~= s.skip(i));
    } else {
        assert(s.skip(0) =~= s);
    }
}

pub proof fn lemma_trim_end_take(s: Seq<char>, j: int)
    requires
        0 <= j <= s.len(),
        forall|k: int| j <= k < s.len() ==> is_ws(#[trigger] s[k]),
    ensures
        trim_end(s) == trim_end(s.take(j)),
    decreases s.len() - j,
{
    if j < s.len() {
        assert(is_ws(s.last()));
        lemma_trim_end_take(s.drop_last(), j);
        assert(s.drop_last().take(j) =~= s.take(j));
    } else {
        assert(s.take(j) =~= s);
    }
}

/// Bounds `(lo, hi)` of `trim(s)` inside `s`.
pub fn trim_bounds(s: &Vec<char>) -> (r: (usize, usize))
    ensures
        r.0 <= r.1 <= s.len(),
        s@.subrange(r.0 as int, r.1 as int) == trim(s@),
        s@.subrange(r.0 as int, s.len() as int) == trim_start(s@),
{
    let mut lo: usize = 0;
    while lo < s.len() && is_ws_char(s[lo])
        invariant
            lo <= s.len(),
            forall|k: int| 0 <= k < lo ==> is_ws(#[trigger] s@[k]),
        decreases s.len() - lo,
    {
        lo += 1;
    }
    proof {
        lemma_trim_start_skip(s@, lo as int);
        let t = s@.skip(lo as int);
        if t.len() > 0 {
            assert(t[0] == s@[lo as int]);
        }
        assert(trim_start(t) == t);
        assert(s@.subrange(lo as int, s.len() as int) =~= t);
    }
    let mut hi: usize = s.len();
    while hi > lo && is_ws_char(s[hi - 1])
        invariant
            lo <= hi <= s.len(),
            forall|k: int| hi <= k < s.len() ==> is_ws(#[trigger] s@[k]),
        decreases hi,
    {
        hi -= 1;
    }
    proof {
        let t = s@.skip(lo as int);
        assert forall|k: int| hi - lo <= k < t.len() implies is_ws(#[trigger] t[k]) by {
            assert(t[k] == s@[lo + k]);
        }
        lemma_trim_end_take(t, hi - lo);
        let u = t.take(hi - lo);
        if u.len() > 0 {
            assert(u.last() == s@[hi - 1]);
        }
        assert(trim_end(u) == u);
        assert(s@.subrange(lo as int, hi as int) =~= u);
    }
    (lo, hi)
}

pub fn trim_vec(s: &Vec<char>) -> (r: Vec<char>)
    ensures
        r@ == trim(s@),
{
    let (lo, hi) = trim_bounds(s);
    slice_of(s, lo, hi)
}

pub fn trim_end_vec(s: &Vec<char>) -> (r: Vec<char>)
    ensures
        r@ == trim_end(s@),
{
    let mut hi: usize = s.len();
    while hi > 0 && is_ws_char(s[hi - 1])
        invariant
            hi <= s.len(),
            forall|k: int| hi <= k < s.len() ==> is_ws(#[trigger] s@[k]),
        decreases hi,
    {
        hi -= 1;
    }
    proof {
        lemma_trim_end_take(s@, hi as int);
        let u = s@.take(hi as int);
        if u.len() > 0 {
            assert(u.last() == s@[hi - 1]);
        }
        assert(trim_end(u) == u);
    }
    let r = slice_of(s, 0, hi);
    assert(r@ =~= s@.take(hi as int));
    r
}

pub proof fn lemma_trim_char_start_skip(s: Seq<char>, c: char, i: int)
    requires
        0 <= i <= s.len(),
        forall|k: int| 0 <= k < i ==> #[trigger] s[k] == c,
    ensures
        trim_char_start(s, c) == trim_char_start(s.skip(i), c),
    decreases i,
{
    if i > 0 {
        lemma_trim_char_start_skip(s.drop_first(), c, i - 1);
        assert(s.drop_first().skip(i - 1) =~= s.skip(i));
    } else {
        assert(s.skip(0) =~= s);
    }
}

pub proof fn lemma_trim_char_end_take(s: Seq<char>, c: char, j: int)
    requires
        0 <= j <= s.len(),
        forall|k: int| j <= k < s.len() ==> #[trigger] s[k] == c,
    ensures
        trim_char_end(s, c) == trim_char_end(s.take(j), c),
    decreases s.len() - j,
{
    if j < s.len() {
        lemma_trim_char_end_take(s.drop_last(), c, j);
        assert(s.drop_last().take(j) =~= s.take(j));
    } else {
        assert(s.take(j) =~= s);
    }
}

/// `str::trim_matches(c)` for a single char.
pub fn trim_char_vec(s: &Vec<char>, c: char) -> (r: Vec<char>)
    ensures
        r@ == trim_char(s@, c),
{
    let mut lo: usize = 0;
    while lo < s.len() && s[lo] == c
        invariant
            lo <= s.len(),
            forall|k: int| 0 <= k < lo ==> #[trigger] s@[k] == c,
        decreases s.len() - lo,
    {
        lo += 1;
    }
    let mut hi: usize = s.len();
    while hi > lo && s[hi - 1] == c
        invariant
            lo <= hi <= s.len(),
            forall|k: int| hi <= k < s.len() ==> #[trigger] s@[k] == c,
        decreases hi,
    {
        hi -= 1;
    }
    proof {
        lemma_trim_char_start_skip(s@, c, lo as int);
        let t = s@.skip(lo as int);
        if t.len() > 0 {
            assert(t[0] == s@[lo as int]);
        }
        assert(trim_char_start(t, c) == t);
        assert forall|k: int| hi - lo <= k < t.len() implies #[trigger] t[k] == c by {
            assert(t[k] == s@[lo + k]);
        }
        lemma_trim_char_end_take(t, c, hi - lo);
        let u = t.take(hi - lo);
        if u.len() > 0 {
            assert(u.last() == s@[hi - 1]);
        }
        assert(trim_char_end(u, c) == u);
    }
    let r = slice_of(s, lo, hi);
    assert(r@ =~= s@.skip(lo as int).take(hi - lo));
    r
}

pub fn starts_with_vec(s: &Vec<char>, p: &Vec<char>) -> (r: bool)
    ensures
        r == starts_with(s@, p@),
{
    if p.len() > s.len() {
        return false;
    }
    let mut i: usize = 0;
    while i < p.len()
        invariant
            p.len() <= s.len(),
            i <= p.len(),
            forall|k: int| 0 <= k < i ==> s@[k] == p@[k],
        decreases p.len() - i,
    {
        if s[i] != p[i] {
            assert(s@.take(p.len() as int)[i as int] != p@[i as int]);
            return false;
        }
        i += 1;
    }
    assert(s@.take(p.len() as int) =~= p@);
    true
}

pub fn starts_with_str(s: &Vec<char>, p: &str) -> (r: bool)
    ensures
        r == starts_with(s@, p@),
{
    let pv = chars_of(p);
    starts_with_vec(s, &pv)
}

pub fn ends_with_vec(s: &Vec<char>, p: &Vec<char>) -> (r: bool)
    ensures
        r == ends_with(s@, p@),
{
    if p.len() > s.len() {
        return false;
    }
    let off = s.len() - p.len();
    let mut i: usize = 0;
    while i < p.len()
        invariant
            p.len() <= s.len(),
            off == s.len() - p.len(),
            i <= p.len(),
            forall|k: int| 0 <= k < i ==> s@[off + k] == p@[k],
        decreases p.len() - i,
    {
        if s[off + i] != p[i] {
            assert(s@.skip(off as int)[i as int] != p@[i as int]);
            return false;
        }
        i += 1;
    }
    assert(s@.skip(off as int) =~= p@);
    true
}

/// Whether `p` occurs in `s` at index `i`.
pub fn occurs_at_vec(s: &Vec<char>, p: &Vec<char>, i: usize) -> (r: bool)
    requires
        i <= s.len(),
    ensures
        r == occurs_at(s@, p@, i as int),
{
    if p.len() > s.len() - i {
        return false;
    }
    let mut k: usize = 0;
    while k < p.len()
        invariant
            i + p.len() <= s.len(),
            k <= p.len(),
            forall|m: int| 0 <= m < k ==> s@[i + m] == p@[m],
        decreases p.len() - k,
    {
        if s[i + k] != p[k] {
            assert(s@.subrange(i as int, i + p.len())[k as int] != p@[k as int]);
            return false;
        }
        k += 1;
    }
    assert(s@.subrange(i as int, i + p.len()) =~= p@);
    true
}

/// `str::find` with a string pattern, as a char index.
pub fn find_vec(s: &Vec<char>, p: &Vec<char>) -> (r: Option<usize>)
    ensures
        r is None <==> find(s@, p@) is None,
        r matches Some(i) ==> find(s@, p@) == Some(i as int) && i + p.len() <= s.len(),
{
    if p.len() > s.len() {
        return None;
    }
    let last = s.len() - p.len();
    let mut i: usize = 0;
    loop
        invariant
            p.len() <= s.len(),
            last == s.len() - p.len(),
            i <= last,
            find(s@, p@) == find_from(s@, p@, i as int),
        decreases last - i,
    {
        if occurs_at_vec(s, p, i) {
            return Some(i);
        }
        if i == last {
            assert(find_from(s@, p@, i + 1) is None);
            return None;
        }
        i += 1;
    }
}

pub fn find_str(s: &Vec<char>, p: &str) -> (r: Option<usize>)
    ensures
        r is None <==> find(s@, p@) is None,
        r matches Some(i) ==> find(s@, p@) == Some(i as int) && i + p@.len() <= s.len(),
{
    let pv = chars_of(p);
    find_vec(s, &pv)
}

pub fn contains_str(s: &Vec<char>, p: &str) -> (r: bool)
    ensures
        r == contains(s@, p@),
{
    find_str(s, p).is_some()
}

pub fn contains_char(s: &Vec<char>, c: char) -> (r: bool)
    ensures
        r == s@.contains(c),
{
    let mut i: usize = 0;
    while i < s.len()
        invariant
            i <= s.len(),
            forall|k: int| 0 <= k < i ==> s@[k] != c,
        decreases s.len() - i,
    {
        if s[i] == c {
            return true;
        }
        i += 1;
    }
    false
}

/// If `pat` occurs at `k >= i`, then `find_from` finds some occurrence at or before `k`.
pub proof fn lemma_find_from_finds(s: Seq<char>, pat: Seq<char>, i: int, k: int)
    requires
        0 <= i <= k,
        occurs_at(s, pat, k),
    ensures
        find_from(s, pat, i) is Some,
        find_from(s, pat, i).unwrap() <= k,
    decreases k - i,
{
    if !occurs_at(s, pat, i) {
        lemma_find_from_finds(s, pat, i + 1, k);
    }
}

/// What `find_from` returns is an occurrence, and none lies before it.
pub proof fn lemma_find_from_sound(s: Seq<char>, pat: Seq<char>, i: int)
    requires
        0 <= i,
    ensures
        find_from(s, pat, i) matches Some(j) ==> i <= j && occurs_at(s, pat, j) && forall|m: int|
            i <= m < j ==> !occurs_at(s, pat, m),
        find_from(s, pat, i) is None ==> forall|m: int| i <= m ==> !occurs_at(s, pat, m),
    decreases s.len() + 1 - i,
{
    if i + pat.len() <= s.len() && !occurs_at(s, pat, i) {
        lemma_find_from_sound(s, pat, i + 1);
    }
}

/// `str::split_once` with a string pattern.
pub fn split_once_str(s: &Vec<char>, p: &str) -> (r: Option<(Vec<char>, Vec<char>)>)
    ensures
        match r {
            Some((a, b)) => split_once(s@, p@) == Some((a@, b@)),
            None => split_once(s@, p@) is None,
        },
{
    let pv = chars_of(p);
    match find_vec(s, &pv) {
        Some(i) => {
            let a = slice_of(s, 0, i);
            let b = slice_of(s, i + pv.len(), s.len());
            assert(a@ =~= s@.take(i as int));
            assert(b@ =~= s@.skip(i + pv.len()));
            Some((a, b))
        },
        None => None,
    }
}

/// `str::rsplit_once` with a char pattern.
pub fn rsplit_once_char_vec(s: &Vec<char>, c: char) -> (r: Option<(Vec<char>, Vec<char>)>)
    ensures
        match r {
            Some((a, b)) => rsplit_once_char(s@, c) == Some((a@, b@)),
            None => rsplit_once_char(s@, c) is None,
        },
{
    let mut i: usize = s.len();
    while i > 0 && s[i - 1] != c
        invariant
            i <= s.len(),
            rfind_char_below(s@, c, s.len() as int) == rfind_char_below(s@, c, i as int),
        decreases i,
    {
        i -= 1;
    }
    if i == 0 {
        None
    } else {
        let a = slice_of(s, 0, i - 1);
        let b = slice_of(s, i, s.len());
        assert(a@ =~= s@.take(i - 1));
        assert(b@ =~= s@.skip(i as int));
        Some((a, b))
    }
}

pub fn sep_matches_exec(sep: &Sep, c: char) -> (r: bool)
    ensures
        r == sep_matches(*sep, c),
{
    match sep {
        Sep::Char(d) => c == *d,
        Sep::CommaOrSemicolon => c == ',' || c == ';',
        Sep::Whitespace => is_ws_char(c),
    }
}

/// `str::split` with a char separator.
pub fn split_vec(s: &Vec<char>, sep: &Sep) -> (r: Vec<Vec<char>>)
    ensures
        vviews(r@) == split(s@, *sep),
{
    let mut r: Vec<Vec<char>> = Vec::new();
    let mut i: usize = 0;
    loop
        invariant
            i <= s.len(),
            vviews(r@) + split_from(s@, *sep, i as int) == split(s@, *sep),
        decreases s.len() - i,
    {
        let ghost gi = i as int;
        let mut j = i;
        while j < s.len() && !sep_matches_exec(sep, s[j])
            invariant
                i <= j <= s.len(),
                next_sep(s@, *sep, i as int) == next_sep(s@, *sep, j as int),
            decreases s.len() - j,
        {
            j += 1;
        }
        proof {
            lemma_next_sep(s@, *sep, gi);
        }
        let piece = slice_of(s, i, j);
        let ghost before = vviews(r@);
        r.push(piece);
        assert(vviews(r@) =~= before.push(piece@));
        if j >= s.len() {
            assert(split_from(s@, *sep, gi) == seq![s@.subrange(gi, s.len() as int)]);
            assert(vviews(r@) =~= before + split_from(s@, *sep, gi));
            assert(split_from(s@, *sep, s.len() as int + 1) =~= Seq::<Seq<char>>::empty());
            return r;
        }
        assert(split_from(s@, *sep, gi) == seq![s@.subrange(gi, j as int)].add(
            split_from(s@, *sep, j + 1),
        ));
        assert(vviews(r@) + split_from(s@, *sep, j + 1) =~= before + split_from(
            s@,
            *sep,
            gi,
        ));
        i = j + 1;
    }
}

/// `str::split_whitespace`.
pub fn words_vec(s: &Vec<char>) -> (r: Vec<Vec<char>>)
    ensures
        vviews(r@) == words(s@),
{
    let pieces = split_vec(s, &Sep::Whitespace);
    let ghost all = vviews(pieces@);
    let mut r: Vec<Vec<char>> = Vec::new();
    let mut i: usize = 0;
    while i < pieces.len()
        invariant
            i <= pieces.len(),
            all == vviews(pieces@),
            all == split(s@, Sep::Whitespace),
            vviews(r@) == all.take(i as int).filter(|w: Seq<char>| w.len() > 0),
        decreases pieces.len() - i,
    {
        let ghost before = vviews(r@);
        assert(all.take(i + 1).drop_last() =~= all.take(i as int));
        proof {
            reveal(Seq::filter);
        }
        if pieces[i].len() > 0 {
            let w = slice_of(&pieces[i], 0, pieces[i].len());
            assert(w@ =~= all[i as int]);
            r.push(w);
            assert(vviews(r@) =~= before.push(all[i as int]));
        }
        i += 1;
    }
    assert(all.take(pieces.len() as int) =~= all);
    r
}

/// `[T]::join` of the pieces with `glue`.
pub fn join_vec(parts: &Vec<Vec<char>>, glue: &Vec<char>) -> (r: Vec<char>)
    ensures
        r@ == join(vviews(parts@), glue@),
{
    let ghost all = vviews(parts@);
    let mut r: Vec<char> = Vec::new();
    let mut i: usize = 0;
    while i < parts.len()
        invariant
            i <= parts.len(),
            all == vviews(parts@),
            r@ == join(all.take(i as int), glue@),
        decreases parts.len() - i,
    {
        assert(all.take(i + 1).drop_last() =~= all.take(i as int));
        if i > 0 {
            append_vec(&mut r, glue);
        }
        append_vec(&mut r, &parts[i]);
        assert(parts[i as int]@ == all[i as int]);
        if i == 0 {
            assert(r@ =~= all.take(1)[0]);
        }
        i += 1;
    }
    assert(all.take(parts.len() as int) =~= all);
    r
}

/// Appends `b` to `a`.
pub fn append_vec(a: &mut Vec<char>, b: &Vec<char>)
    ensures
        final(a)@ == old(a)@ + b@,
{
    let mut i: usize = 0;
    while i < b.len()
        invariant
            i <= b.len(),
            a@ == old(a)@ + b@.take(i as int),
        decreases b.len() - i,
    {
        a.push(b[i]);
        i += 1;
        assert(old(a)@ + b@.take(i as int) =~= (old(a)@ + b@.take(i - 1)).push(b@[i - 1]));
    }
    assert(b@.take(b.len() as int) =~= b@);
}

pub fn append_str(a: &mut Vec<char>, b: &str)
    ensures
        final(a)@ == old(a)@ + b@,
{
    let bv = chars_of(b);
    append_vec(a, &bv);
}

// ---------------------------------------------------------------------------
// Trimming a set of characters (`trim_matches` with a char predicate).

/// Characters to trim.
pub enum CharSet {
    One(char),
    Brackets,
    BracketsOrDot,
}

pub open spec fn in_set(set: CharSet, c: char) -> bool {
    match set {
        CharSet::One(d) => c == d,
        CharSet::Brackets => c == '[' || c == ']',
        CharSet::BracketsOrDot => c == '[' || c == ']' || c == '.',
    }
}

pub open spec fn trim_set_start(s: Seq<char>, set: CharSet) -> Seq<char>
    decreases s.len(),
{
    if s.len() > 0 && in_set(set, s[0]) {
        trim_set_start(s.drop_first(), set)
    } else {
        s
    }
}

pub open spec fn trim_set_end(s: Seq<char>, set: CharSet) -> Seq<char>
    decreases s.len(),
{
    if s.len() > 0 && in_set(set, s.last()) {
        trim_set_end(s.drop_last(), set)
    } else {
        s
    }
}

/// `str::trim_matches` with a set of characters.
pub open spec fn trim_set(s: Seq<char>, set: CharSet) -> Seq<char> {
    trim_set_end(trim_set_start(s, set), set)
}

pub fn in_set_exec(set: &CharSet, c: char) -> (r: bool)
    ensures
        r == in_set(*set, c),
{
    match set {
        CharSet::One(d) => c == *d,
        CharSet::Brackets => c == '[' || c == ']',
        CharSet::BracketsOrDot => c == '[' || c == ']' || c == '.',
    }
}

pub proof fn lemma_trim_set_start_skip(s: Seq<char>, set: CharSet, i: int)
    requires
        0 <= i <= s.len(),
        forall|k: int| 0 <= k < i ==> in_set(set, #[trigger] s[k]),
    ensures
        trim_set_start(s, set) == trim_set_start(s.skip(i), set),
    decreases i,
{
    if i > 0 {
        lemma_trim_set_start_skip(s.drop_first(), set, i - 1);
        assert(s.drop_first().skip(i - 1) =~= s.skip(i));
    } else {
        assert(s.skip(0) =~= s);
    }
}

pub proof fn lemma_trim_set_end_take(s: Seq<char>, set: CharSet, j: int)
    requires
        0 <= j <= s.len(),
        forall|k: int| j <= k < s.len() ==> in_set(set, #[trigger] s[k]),
    ensures
        trim_set_end(s, set) == trim_set_end(s.take(j), set),
    decreases s.len() - j,
{
    if j < s.len() {
        lemma_trim_set_end_take(s.drop_last(), set, j);
        assert(s.drop_last().take(j) =~= s.take(j));
    } else {
        assert(s.take(j) =~= s);
    }
}

/// `str::trim_start_matches` with a set of characters.
pub fn trim_set_start_vec(s: &Vec<char>, set: &CharSet) -> (r: Vec<char>)
    ensures
        r@ == trim_set_start(s@, *set),
{
    let mut lo: usize = 0;
    while lo < s.len() && in_set_exec(set, s[lo])
        invariant
            lo <= s.len(),
            forall|k: int| 0 <= k < lo ==> in_set(*set, #[trigger] s@[k]),
        decreases s.len() - lo,
    {
        lo += 1;
    }
    proof {
        lemma_trim_set_start_skip(s@, *set, lo as int);
        let t = s@.skip(lo as int);
        if t.len() > 0 {
            assert(t[0] == s@[lo as int]);
        }
        assert(trim_set_start(t, *set) == t);
    }
    let r = slice_of(s, lo, s.len());
    assert(r@ =~= s@.skip(lo as int));
    r
}

/// `str::trim_matches` with a set of characters.
pub fn trim_set_vec(s: &Vec<char>, set: &CharSet) -> (r: Vec<char>)
    ensures
        r@ == trim_set(s@, *set),
{
    let t = trim_set_start_vec(s, set);
    let mut hi: usize = t.len();
    while hi > 0 && in_set_exec(set, t[hi - 1])
        invariant
            hi <= t.len(),
            forall|k: int| hi <= k < t.len() ==> in_set(*set, #[trigger] t@[k]),
        decreases hi,
    {
        hi -= 1;
    }
    proof {
        lemma_trim_set_end_take(t@, *set, hi as int);
        let u = t@.take(hi as int);
        if u.len() > 0 {
            assert(u.last() == t@[hi - 1]);
        }
        assert(trim_set_end(u, *set) == u);
    }
    let r = slice_of(&t, 0, hi);
    assert(r@ =~= t@.take(hi as int));
    r
}

/// `str::eq_ignore_ascii_case`.
pub open spec fn eq_ignore_case(a: Seq<char>, b: Seq<char>) -> bool {
    lower(a) == lower(b)
}

pub fn eq_ignore_case_str(a: &Vec<char>, b: &str) -> (r: bool)
    ensures
        r == eq_ignore_case(a@, b@),
{
    let la = lower_vec(a);
    let lb = lower_vec(&chars_of(b));
    seq_equal(&la, &lb)
}

} // verus!
