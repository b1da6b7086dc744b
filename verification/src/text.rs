//! Character and string primitives with their specifications.
//!
//! Strings are reasoned about through their view, the sequence of their
//! `char`s. The Unicode character classes come from std and are named here;
//! everything built on them is proved.

use vstd::prelude::*;

verus! {

/// Whether a character outside ASCII is alphabetic or numeric in Unicode's sense.
pub uninterp spec fn unicode_alphanumeric(c: char) -> bool;

/// An ASCII letter or digit.
pub open spec fn is_ascii_alphanumeric_char(c: char) -> bool {
    ('a' <= c && c <= 'z') || ('A' <= c && c <= 'Z') || ('0' <= c && c <= '9')
}

/// Whether `c` is alphanumeric (what `char::is_alphanumeric` answers): within
/// ASCII exactly the letters and digits, beyond it Unicode's classes.
pub open spec fn is_alphanumeric_char(c: char) -> bool {
    if (c as u32) < 128 {
        is_ascii_alphanumeric_char(c)
    } else {
        unicode_alphanumeric(c)
    }
}

/// Whether `c` has Unicode's White_Space property (what `char::is_whitespace`
/// answers): tab, line feed, vertical tab, form feed, carriage return, space,
/// next line, no-break space, ogham space mark, the spaces U+2000 to U+200A,
/// line and paragraph separators, narrow no-break space, medium mathematical
/// space and ideographic space.
pub open spec fn is_whitespace_char(c: char) -> bool {
    let u = c as u32;
    ||| 0x9 <= u <= 0xD
    ||| u == 0x20
    ||| u == 0x85
    ||| u == 0xA0
    ||| u == 0x1680
    ||| 0x2000 <= u <= 0x200A
    ||| u == 0x2028
    ||| u == 0x2029
    ||| u == 0x202F
    ||| u == 0x205F
    ||| u == 0x3000
}

/// The Unicode lowercase mapping of a string that holds a character
/// beyond ASCII.
pub uninterp spec fn unicode_lowercase(s: Seq<char>) -> Seq<char>;

/// Every character of `s` is ASCII.
pub open spec fn is_ascii_text(s: Seq<char>) -> bool {
    forall|i: int| 0 <= i < s.len() ==> (#[trigger] s[i] as u32) < 128
}

/// The lowercase of an ASCII character: `A`–`Z` become `a`–`z`, every other
/// character stays.
pub open spec fn ascii_lower_char(c: char) -> char {
    if 'A' <= c && c <= 'Z' {
        ((c as u32) + 32) as char
    } else {
        c
    }
}

/// The lowercase of a string (what `str::to_lowercase` gives): within ASCII
/// each letter lowercased and everything else kept; beyond it Unicode's mapping.
pub open spec fn lowercase_of(s: Seq<char>) -> Seq<char> {
    if is_ascii_text(s) {
        s.map_values(|c: char| ascii_lower_char(c))
    } else {
        unicode_lowercase(s)
    }
}

/// Asks std whether `c` is alphabetic or numeric.
/// Calls `char::is_alphanumeric` (Unicode's Alphabetic property or a numeric
/// general category). The contract claims that within ASCII this holds of
/// letters and digits only, and otherwise names the answer.
#[verifier::external_body]
pub(crate) fn char_is_alphanumeric(c: char) -> (b: bool)
    ensures
        b == if (c as u32) < 128 {
            is_ascii_alphanumeric_char(c)
        } else {
            unicode_alphanumeric(c)
        },
{
    c.is_alphanumeric()
}

/// Whether `c` is whitespace.
pub fn char_is_whitespace(c: char) -> (b: bool)
    ensures
        b == is_whitespace_char(c),
{
    let u = c as u32;
    (0x9 <= u && u <= 0xD) || u == 0x20 || u == 0x85 || u == 0xA0 || u == 0x1680 || (0x2000 <= u
        && u <= 0x200A) || u == 0x2028 || u == 0x2029 || u == 0x202F || u == 0x205F || u == 0x3000
}

/// Lowercases a string.
/// Calls `str::to_lowercase`. The contract claims that an ASCII string comes
/// back with `A`–`Z` turned into `a`–`z` and every other character kept, and
/// otherwise names the result, a function of the argument alone.
#[verifier::external_body]
pub(crate) fn to_lowercase(s: &str) -> (r: String)
    ensures
        r@ == if is_ascii_text(s@) {
            s@.map_values(|c: char| ascii_lower_char(c))
        } else {
            unicode_lowercase(s@)
        },
{
    s.to_lowercase()
}

/// Appends one character.
/// Calls `String::push`, which appends `c` to the end of the string.
#[verifier::external_body]
pub(crate) fn push_char(s: &mut String, c: char)
    ensures
        final(s)@ == old(s)@.push(c),
{
    s.push(c)
}

/// The characters of a string, in order.
pub fn chars_of(s: &str) -> (v: Vec<char>)
    ensures
        v@ == s@,
{
    let n = s.unicode_len();
    let mut v: Vec<char> = Vec::new();
    for i in 0..n
        invariant
            n == s@.len(),
            v@ == s@.take(i as int),
    {
        v.push(s.get_char(i));
        assert(s@.take(i + 1) == s@.take(i as int).push(s@[i as int]));
    }
    assert(s@.take(n as int) == s@);
    v
}

/// A string made of the given characters.
pub fn string_of(cs: &[char]) -> (r: String)
    ensures
        r@ == cs@,
{
    let mut r = String::new();
    for i in 0..cs.len()
        invariant
            r@ == cs@.take(i as int),
    {
        push_char(&mut r, cs[i]);
        assert(cs@.take(i + 1) == cs@.take(i as int).push(cs@[i as int]));
    }
    assert(cs@.take(cs@.len() as int) == cs@);
    r
}

/// The characters `cs[from..to]`.
pub fn sub_chars(cs: &[char], from: usize, to: usize) -> (v: Vec<char>)
    requires
        from <= to <= cs@.len(),
    ensures
        v@ == cs@.subrange(from as int, to as int),
{
    let mut v: Vec<char> = Vec::new();
    let mut i = from;
    while i < to
        invariant
            from <= i <= to <= cs@.len(),
            v@ == cs@.subrange(from as int, i as int),
        decreases to - i,
    {
        v.push(cs[i]);
        assert(cs@.subrange(from as int, i + 1) == cs@.subrange(from as int, i as int).push(
            cs@[i as int],
        ));
        i = i + 1;
    }
    v
}

/// A string made of the characters `cs[from..to]`.
pub fn string_of_range(cs: &[char], from: usize, to: usize) -> (r: String)
    requires
        from <= to <= cs@.len(),
    ensures
        r@ == cs@.subrange(from as int, to as int),
{
    let mut r = String::new();
    let mut i = from;
    while i < to
        invariant
            from <= i <= to <= cs@.len(),
            r@ == cs@.subrange(from as int, i as int),
        decreases to - i,
    {
        push_char(&mut r, cs[i]);
        assert(cs@.subrange(from as int, i + 1) == cs@.subrange(from as int, i as int).push(
            cs@[i as int],
        ));
        i = i + 1;
    }
    r
}

/// Whether two strings hold the same characters.
pub fn str_eq(a: &str, b: &str) -> (r: bool)
    ensures
        r == (a@ == b@),
{
    let n = a.unicode_len();
    let m = b.unicode_len();
    if n != m {
        return false;
    }
    for i in 0..n
        invariant
            n == a@.len(),
            m == b@.len(),
            n == m,
            forall|k: int| 0 <= k < i ==> a@[k] == b@[k],
    {
        if a.get_char(i) != b.get_char(i) {
            return false;
        }
    }
    assert(a@ =~= b@);
    true
}

/// `n` occurs in `h` starting at index `i`.
pub open spec fn occurs_at(h: Seq<char>, n: Seq<char>, i: int) -> bool {
    0 <= i && i + n.len() <= h.len() && h.subrange(i, i + n.len()) == n
}

/// `n` occurs somewhere in `h`.
pub open spec fn contains_seq(h: Seq<char>, n: Seq<char>) -> bool {
    exists|i: int| occurs_at(h, n, i)
}

/// No occurrence of `n` in `a + b` can straddle the two: one of them is
/// empty, or the character on one side of the seam does not occur in `n`.
pub open spec fn seam_free(a: Seq<char>, b: Seq<char>, n: Seq<char>) -> bool {
    a.len() == 0 || b.len() == 0 || !n.contains(a.last()) || !n.contains(b[0])
}

/// Where no occurrence can straddle the seam, `n` occurs in `a + b` exactly
/// when it occurs in `a` or in `b`.
pub proof fn lemma_contains_concat(a: Seq<char>, b: Seq<char>, n: Seq<char>)
    requires
        n.len() > 0,
        seam_free(a, b, n),
    ensures
        contains_seq(a + b, n) == (contains_seq(a, n) || contains_seq(b, n)),
{
    let ab = a + b;
    if contains_seq(a, n) {
        let i = choose|i: int| occurs_at(a, n, i);
        assert(ab.subrange(i, i + n.len()) =~= a.subrange(i, i + n.len()));
        assert(occurs_at(ab, n, i));
    }
    if contains_seq(b, n) {
        let j = choose|j: int| occurs_at(b, n, j);
        let i = a.len() + j;
        assert(ab.subrange(i, i + n.len()) =~= b.subrange(j, j + n.len()));
        assert(occurs_at(ab, n, i));
    }
    if contains_seq(ab, n) {
        let i = choose|i: int| occurs_at(ab, n, i);
        if i + n.len() <= a.len() {
            assert(a.subrange(i, i + n.len()) =~= ab.subrange(i, i + n.len()));
            assert(occurs_at(a, n, i));
        } else if i >= a.len() {
            let j = i - a.len();
            assert(b.subrange(j, j + n.len()) =~= ab.subrange(i, i + n.len()));
            assert(occurs_at(b, n, j));
        } else {
            let k = a.len() - 1 - i;
            assert(n[k] == ab.subrange(i, i + n.len())[k]);
            assert(n[k] == a.last());
            assert(n[k + 1] == ab.subrange(i, i + n.len())[k + 1]);
            assert(n[k + 1] == b[0]);
            assert(n.contains(a.last()));
            assert(n.contains(b[0]));
        }
    }
}

/// What occurs in a part occurs in the whole.
pub proof fn lemma_contains_within(a: Seq<char>, b: Seq<char>, n: Seq<char>)
    ensures
        contains_seq(a, n) ==> contains_seq(a + b, n),
        contains_seq(b, n) ==> contains_seq(a + b, n),
{
    let ab = a + b;
    if contains_seq(a, n) {
        let i = choose|i: int| occurs_at(a, n, i);
        assert(ab.subrange(i, i + n.len()) =~= a.subrange(i, i + n.len()));
        assert(occurs_at(ab, n, i));
    }
    if contains_seq(b, n) {
        let j = choose|j: int| occurs_at(b, n, j);
        let i = a.len() + j;
        assert(ab.subrange(i, i + n.len()) =~= b.subrange(j, j + n.len()));
        assert(occurs_at(ab, n, i));
    }
}

/// A text without some character of `n` does not contain `n`.
pub proof fn lemma_lacks_char(h: Seq<char>, n: Seq<char>, c: char)
    requires
        n.contains(c),
        !h.contains(c),
    ensures
        !contains_seq(h, n),
{
    if contains_seq(h, n) {
        let i = choose|i: int| occurs_at(h, n, i);
        let k = choose|k: int| 0 <= k < n.len() && n[k] == c;
        assert(h[i + k] == h.subrange(i, i + n.len())[k]);
    }
}

/// `p` is a prefix of `s`.
pub open spec fn has_prefix(s: Seq<char>, p: Seq<char>) -> bool {
    p.len() <= s.len() && s.take(p.len() as int) == p
}

/// `p` is a suffix of `s`.
pub open spec fn has_suffix(s: Seq<char>, p: Seq<char>) -> bool {
    p.len() <= s.len() && s.skip(s.len() - p.len()) == p
}

/// Index of the first occurrence of `n` in `h` at or after `i`, or the
/// length of `h` when there is none.
pub open spec fn index_of_seq_from(h: Seq<char>, n: Seq<char>, i: int) -> int
    decreases h.len() - i,
{
    if i < 0 || i >= h.len() {
        h.len() as int
    } else if occurs_at(h, n, i) {
        i
    } else {
        index_of_seq_from(h, n, i + 1)
    }
}

/// Index of the first occurrence of a non-empty `n` in `h`, or the length of
/// `h` when there is none.
pub open spec fn index_of_seq(h: Seq<char>, n: Seq<char>) -> int {
    index_of_seq_from(h, n, 0)
}

/// What is known of the first occurrence of a non-empty `n`.
pub proof fn lemma_index_of_seq(h: Seq<char>, n: Seq<char>, i: int)
    requires
        0 <= i <= h.len(),
        n.len() > 0,
    ensures
        i <= index_of_seq_from(h, n, i) <= h.len(),
        forall|k: int| i <= k < index_of_seq_from(h, n, i) ==> !#[trigger] occurs_at(h, n, k),
        index_of_seq_from(h, n, i) < h.len() ==> occurs_at(h, n, index_of_seq_from(h, n, i)),
        index_of_seq_from(h, n, i) == h.len() ==> forall|k: int| i <= k ==> !#[trigger] occurs_at(h, n, k),
    decreases h.len() - i,
{
    if i < h.len() && !occurs_at(h, n, i) {
        lemma_index_of_seq(h, n, i + 1);
    }
}

/// Index of the first occurrence of the non-empty `n` in `h[from..]`, or the
/// length of `h` when there is none.
pub fn find_chars_from(h: &[char], n: &[char], from: usize) -> (r: usize)
    requires
        from <= h@.len(),
        n@.len() > 0,
    ensures
        r == index_of_seq_from(h@, n@, from as int),
        from <= r <= h@.len(),
{
    let mut i = from;
    while i < h.len() && !occurs_at_exec(h, n, i)
        invariant
            from <= i <= h@.len(),
            index_of_seq_from(h@, n@, i as int) == index_of_seq_from(h@, n@, from as int),
        decreases h.len() - i,
    {
        i = i + 1;
    }
    i
}

/// Whether `n` occurs at index `i` of `h`.
pub fn occurs_at_exec(h: &[char], n: &[char], i: usize) -> (r: bool)
    ensures
        r == occurs_at(h@, n@, i as int),
{
    if i > h.len() || n.len() > h.len() - i {
        return false;
    }
    for k in 0..n.len()
        invariant
            i + n@.len() <= h@.len(),
            n@.len() == n.len(),
            h@.len() == h.len(),
            forall|j: int| 0 <= j < k ==> h@[i + j] == n@[j],
    {
        if h[i + k] != n[k] {
            assert(h@.subrange(i as int, i + n@.len())[k as int] != n@[k as int]);
            return false;
        }
    }
    assert(h@.subrange(i as int, i + n@.len()) =~= n@);
    true
}

/// Whether `n` occurs anywhere in `h`.
pub fn contains_chars(h: &[char], n: &[char]) -> (r: bool)
    ensures
        r == contains_seq(h@, n@),
{
    if n.len() > h.len() {
        return false;
    }
    let last = h.len() - n.len();
    let mut i: usize = 0;
    loop
        invariant
            last == h@.len() - n@.len(),
            i <= last,
            forall|j: int| 0 <= j < i ==> !occurs_at(h@, n@, j),
        decreases last - i,
    {
        if occurs_at_exec(h, n, i) {
            return true;
        }
        if i == last {
            assert forall|j: int| occurs_at(h@, n@, j) implies j <= last && j < i + 1 by {}
            return false;
        }
        i = i + 1;
    }
}

/// Whether the string `n` occurs in the string `h`.
pub fn str_contains(h: &str, n: &str) -> (r: bool)
    ensures
        r == contains_seq(h@, n@),
{
    let hc = chars_of(h);
    let nc = chars_of(n);
    contains_chars(hc.as_slice(), nc.as_slice())
}

/// Whether `p` is a prefix of `s`.
pub fn chars_have_prefix(s: &[char], p: &[char]) -> (r: bool)
    ensures
        r == has_prefix(s@, p@),
{
    let r = occurs_at_exec(s, p, 0);
    assert(r ==> s@.take(p@.len() as int) =~= s@.subrange(0, p@.len() as int));
    assert(has_prefix(s@, p@) ==> s@.subrange(0, p@.len() as int) =~= s@.take(p@.len() as int));
    r
}

/// Whether `p` is a suffix of `s`.
pub fn chars_have_suffix(s: &[char], p: &[char]) -> (r: bool)
    ensures
        r == has_suffix(s@, p@),
{
    if p.len() > s.len() {
        return false;
    }
    let r = occurs_at_exec(s, p, s.len() - p.len());
    assert(s@.skip(s@.len() - p@.len()) =~= s@.subrange(s@.len() - p@.len(), s@.len() as int));
    r
}

/// Index of the first character from `i` on that is not whitespace,
/// or the length when there is none.
pub open spec fn skip_ws_from(s: Seq<char>, i: int) -> int
    decreases s.len() - i,
{
    if i < 0 || i >= s.len() {
        s.len() as int
    } else if is_whitespace_char(s[i]) {
        skip_ws_from(s, i + 1)
    } else {
        i
    }
}

/// End (exclusive) of `s.take(j)` once trailing whitespace is dropped.
pub open spec fn trim_end_at(s: Seq<char>, j: int) -> int
    decreases j,
{
    if j <= 0 || j > s.len() {
        0
    } else if is_whitespace_char(s[j - 1]) {
        trim_end_at(s, j - 1)
    } else {
        j
    }
}

/// `s` without leading and trailing whitespace (`str::trim`).
pub open spec fn trim_seq(s: Seq<char>) -> Seq<char> {
    let a = skip_ws_from(s, 0);
    let b = trim_end_at(s, s.len() as int);
    if a < b {
        s.subrange(a, b)
    } else {
        Seq::empty()
    }
}

/// Every character of `s` is whitespace.
pub open spec fn is_blank_seq(s: Seq<char>) -> bool {
    forall|i: int| 0 <= i < s.len() ==> is_whitespace_char(#[trigger] s[i])
}

/// The index where leading whitespace ends.
fn skip_ws_exec(s: &[char]) -> (a: usize)
    ensures
        a == skip_ws_from(s@, 0),
        a <= s@.len(),
        forall|k: int| 0 <= k < a ==> is_whitespace_char(#[trigger] s@[k]),
        a < s@.len() ==> !is_whitespace_char(s@[a as int]),
{
    let mut i: usize = 0;
    while i < s.len() && char_is_whitespace(s[i])
        invariant
            i <= s@.len(),
            skip_ws_from(s@, i as int) == skip_ws_from(s@, 0),
            forall|k: int| 0 <= k < i ==> is_whitespace_char(#[trigger] s@[k]),
        decreases s.len() - i,
    {
        i = i + 1;
    }
    i
}

/// The index where trailing whitespace begins.
fn trim_end_exec(s: &[char]) -> (b: usize)
    ensures
        b == trim_end_at(s@, s@.len() as int),
        b <= s@.len(),
        forall|k: int| b <= k < s@.len() ==> is_whitespace_char(#[trigger] s@[k]),
        b > 0 ==> !is_whitespace_char(s@[b - 1]),
{
    let mut j: usize = s.len();
    while j > 0 && char_is_whitespace(s[j - 1])
        invariant
            j <= s@.len(),
            trim_end_at(s@, j as int) == trim_end_at(s@, s@.len() as int),
            forall|k: int| j <= k < s@.len() ==> is_whitespace_char(#[trigger] s@[k]),
        decreases j,
    {
        j = j - 1;
    }
    j
}

/// Characters of `s` without leading and trailing whitespace.
pub fn trim_chars(s: &[char]) -> (r: String)
    ensures
        r@ == trim_seq(s@),
{
    let a = skip_ws_exec(s);
    let b = trim_end_exec(s);
    if a < b {
        string_of_range(s, a, b)
    } else {
        String::new()
    }
}

/// `s` without leading and trailing whitespace, as `str::trim` gives it.
pub fn trim(s: &str) -> (r: String)
    ensures
        r@ == trim_seq(s@),
{
    let cs = chars_of(s);
    trim_chars(cs.as_slice())
}

/// Trimming leaves nothing exactly when every character is whitespace.
pub proof fn lemma_trim_empty_iff_blank(s: Seq<char>)
    ensures
        (trim_seq(s).len() == 0) <==> is_blank_seq(s),
{
    lemma_skip_ws_bounds(s, 0);
    lemma_trim_end_bounds(s, s.len() as int);
    let a = skip_ws_from(s, 0);
    let b = trim_end_at(s, s.len() as int);
    if a < b {
        assert(!is_whitespace_char(s[a]));
    } else if !is_blank_seq(s) {
        let k = choose|k: int| 0 <= k < s.len() && !is_whitespace_char(s[k]);
        assert(a <= k);
        assert(k < b);
    }
}

proof fn lemma_skip_ws_bounds(s: Seq<char>, i: int)
    requires
        0 <= i <= s.len(),
    ensures
        i <= skip_ws_from(s, i) <= s.len(),
        forall|k: int| i <= k < skip_ws_from(s, i) ==> is_whitespace_char(#[trigger] s[k]),
        skip_ws_from(s, i) < s.len() ==> !is_whitespace_char(s[skip_ws_from(s, i)]),
    decreases s.len() - i,
{
    if i < s.len() && is_whitespace_char(s[i]) {
        lemma_skip_ws_bounds(s, i + 1);
    }
}

proof fn lemma_trim_end_bounds(s: Seq<char>, j: int)
    requires
        0 <= j <= s.len(),
    ensures
        0 <= trim_end_at(s, j) <= j,
        forall|k: int| trim_end_at(s, j) <= k < j ==> is_whitespace_char(#[trigger] s[k]),
        trim_end_at(s, j) > 0 ==> !is_whitespace_char(s[trim_end_at(s, j) - 1]),
    decreases j,
{
    if j > 0 && is_whitespace_char(s[j - 1]) {
        lemma_trim_end_bounds(s, j - 1);
    }
}

/// Whether every character of `s` is whitespace (`s.trim().is_empty()`).
pub fn is_blank(s: &str) -> (r: bool)
    ensures
        r == (trim_seq(s@).len() == 0),
        r == is_blank_seq(s@),
{
    let t = trim(s);
    proof {
        lemma_trim_empty_iff_blank(s@);
    }
    t.as_str().unicode_len() == 0
}

/// Index of the first `c` in `s` at or after `i`, or the length of `s`.
pub open spec fn index_of_char_from(s: Seq<char>, c: char, i: int) -> int
    decreases s.len() - i,
{
    if i < 0 || i >= s.len() {
        s.len() as int
    } else if s[i] == c {
        i
    } else {
        index_of_char_from(s, c, i + 1)
    }
}

/// Index of the first `c` in `s`, or the length of `s` when there is none.
pub open spec fn index_of_char(s: Seq<char>, c: char) -> int {
    index_of_char_from(s, c, 0)
}

/// What is known of the first occurrence of `c`.
pub proof fn lemma_index_of_char(s: Seq<char>, c: char, i: int)
    requires
        0 <= i <= s.len(),
    ensures
        i <= index_of_char_from(s, c, i) <= s.len(),
        forall|k: int| i <= k < index_of_char_from(s, c, i) ==> #[trigger] s[k] != c,
        index_of_char_from(s, c, i) < s.len() ==> s[index_of_char_from(s, c, i)] == c,
    decreases s.len() - i,
{
    if i < s.len() && s[i] != c {
        lemma_index_of_char(s, c, i + 1);
    }
}

/// Index of the first `c` in `s[from..]`, or the length when there is none.
pub fn find_char_from(s: &[char], c: char, from: usize) -> (r: usize)
    requires
        from <= s@.len(),
    ensures
        r == index_of_char_from(s@, c, from as int),
        from <= r <= s@.len(),
        forall|k: int| from <= k < r ==> #[trigger] s@[k] != c,
        r < s@.len() ==> s@[r as int] == c,
{
    let mut i = from;
    while i < s.len() && s[i] != c
        invariant
            from <= i <= s@.len(),
            index_of_char_from(s@, c, i as int) == index_of_char_from(s@, c, from as int),
            forall|k: int| from <= k < i ==> #[trigger] s@[k] != c,
        decreases s.len() - i,
    {
        i = i + 1;
    }
    i
}

/// Searching from `i + j` in `s` is searching from `j` in `s.skip(i)`.
pub proof fn lemma_index_of_char_skip(s: Seq<char>, c: char, i: int, j: int)
    requires
        0 <= i <= s.len(),
        0 <= j,
    ensures
        index_of_char_from(s, c, i + j) == i + index_of_char_from(s.skip(i), c, j),
    decreases s.len() - i - j,
{
    if i + j < s.len() && s[i + j] != c {
        lemma_index_of_char_skip(s, c, i, j + 1);
    }
}

/// End (exclusive) of `s.take(j)` once trailing `c`s are dropped.
pub open spec fn end_without_trailing(s: Seq<char>, c: char, j: int) -> int
    decreases j,
{
    if j <= 0 || j > s.len() {
        0
    } else if s[j - 1] == c {
        end_without_trailing(s, c, j - 1)
    } else {
        j
    }
}

/// Index of the first character from `i` on that is not `c`, or the length.
pub open spec fn start_without_leading(s: Seq<char>, c: char, i: int) -> int
    decreases s.len() - i,
{
    if i < 0 || i >= s.len() {
        s.len() as int
    } else if s[i] == c {
        start_without_leading(s, c, i + 1)
    } else {
        i
    }
}

/// `s` without its trailing `c`s (`str::trim_end_matches`).
pub open spec fn trim_trailing(s: Seq<char>, c: char) -> Seq<char> {
    s.take(end_without_trailing(s, c, s.len() as int))
}

/// `s` without its leading and trailing `c`s (`str::trim_matches`).
pub open spec fn trim_char_seq(s: Seq<char>, c: char) -> Seq<char> {
    let a = start_without_leading(s, c, 0);
    let b = end_without_trailing(s, c, s.len() as int);
    if a < b {
        s.subrange(a, b)
    } else {
        Seq::empty()
    }
}

/// The characters of `s` without leading and trailing `c`s.
pub fn trim_char(s: &[char], c: char) -> (v: Vec<char>)
    ensures
        v@ == trim_char_seq(s@, c),
{
    let mut i: usize = 0;
    while i < s.len() && s[i] == c
        invariant
            i <= s@.len(),
            start_without_leading(s@, c, i as int) == start_without_leading(s@, c, 0),
        decreases s.len() - i,
    {
        i = i + 1;
    }
    let mut j: usize = s.len();
    while j > 0 && s[j - 1] == c
        invariant
            j <= s@.len(),
            end_without_trailing(s@, c, j as int) == end_without_trailing(s@, c, s@.len() as int),
        decreases j,
    {
        j = j - 1;
    }
    if i < j {
        sub_chars(s, i, j)
    } else {
        Vec::new()
    }
}

/// A line without the carriage return that ended it, if any.
pub open spec fn strip_cr(l: Seq<char>) -> Seq<char> {
    if l.len() > 0 && l.last() == '\r' {
        l.drop_last()
    } else {
        l
    }
}

/// The lines of `s` as `str::lines` yields them: split at `\n`, with a
/// `\r` right before the `\n` dropped, and no empty line after a final `\n`.
pub open spec fn lines_of(s: Seq<char>) -> Seq<Seq<char>>
    decreases s.len(),
{
    if s.len() == 0 {
        Seq::empty()
    } else {
        let k = index_of_char(s, '\n');
        if k >= s.len() || k < 0 {
            seq![s]
        } else {
            seq![strip_cr(s.take(k))] + lines_of(s.skip(k + 1))
        }
    }
}

/// `s` split at every `c` (`str::split` with a character).
pub open spec fn split_on(s: Seq<char>, c: char) -> Seq<Seq<char>>
    decreases s.len(),
{
    let k = index_of_char(s, c);
    if k >= s.len() || k < 0 {
        seq![s]
    } else {
        seq![s.take(k)] + split_on(s.skip(k + 1), c)
    }
}

/// Splits `s` at every `c`.
pub fn split_at_char(s: &str, c: char) -> (r: Vec<String>)
    ensures
        views_of(r@) == split_on(s@, c),
{
    let cs = chars_of(s);
    let n = cs.len();
    let mut r: Vec<String> = Vec::new();
    let mut start: usize = 0;
    assert(cs@.skip(0) =~= cs@);
    loop
        invariant
            n == cs@.len(),
            cs@ == s@,
            start <= n,
            views_of(r@) + split_on(cs@.skip(start as int), c) == split_on(s@, c),
        decreases n - start,
    {
        let ghost rest = cs@.skip(start as int);
        let k = find_char_from(cs.as_slice(), c, start);
        proof {
            lemma_index_of_char_skip(cs@, c, start as int, 0);
        }
        let piece = string_of_range(cs.as_slice(), start, k);
        let ghost prev = views_of(r@);
        r.push(piece);
        assert(views_of(r@) == prev.push(piece@));
        if k < n {
            assert(rest.take(k - start) =~= cs@.subrange(start as int, k as int));
            assert(rest.skip(k - start + 1) =~= cs@.skip(k + 1));
            assert(split_on(rest, c) == seq![piece@] + split_on(cs@.skip(k + 1), c));
            assert(views_of(r@) + split_on(cs@.skip(k + 1), c) =~= prev + split_on(rest, c));
            start = k + 1;
        } else {
            assert(rest =~= piece@);
            assert(split_on(rest, c) == seq![piece@]);
            assert(views_of(r@) =~= prev + split_on(rest, c));
            return r;
        }
    }
}

/// The views of a list of strings.
pub open spec fn views_of(v: Seq<String>) -> Seq<Seq<char>> {
    v.map_values(|x: String| x@)
}

/// Splits `s` into lines, as `str::lines` does.
pub fn split_lines(s: &str) -> (r: Vec<String>)
    ensures
        views_of(r@) == lines_of(s@),
{
    let cs = chars_of(s);
    let n = cs.len();
    let mut r: Vec<String> = Vec::new();
    let mut start: usize = 0;
    assert(cs@.skip(0) =~= cs@);
    while start < n
        invariant
            n == cs@.len(),
            cs@ == s@,
            start <= n,
            views_of(r@) + lines_of(cs@.skip(start as int)) == lines_of(s@),
        decreases n - start,
    {
        let ghost rest = cs@.skip(start as int);
        let k = find_char_from(cs.as_slice(), '\n', start);
        proof {
            lemma_index_of_char_skip(cs@, '\n', start as int, 0);
        }
        let mut end = k;
        if end > start && cs[end - 1] == '\r' && k < n {
            end = end - 1;
        }
        let line = string_of_range(cs.as_slice(), start, end);
        let ghost prev = views_of(r@);
        r.push(line);
        assert(views_of(r@) == prev.push(line@));
        if k < n {
            assert(rest.take(k - start) =~= cs@.subrange(start as int, k as int));
            assert(rest.skip(k - start + 1) =~= cs@.skip(k + 1));
            assert(strip_cr(rest.take(k - start)) =~= line@);
            assert(lines_of(rest) == seq![line@] + lines_of(cs@.skip(k + 1)));
            assert(views_of(r@) + lines_of(cs@.skip(k + 1)) =~= prev + lines_of(rest));
            start = k + 1;
        } else {
            assert(rest =~= line@);
            assert(lines_of(rest) == seq![line@]);
            assert(cs@.skip(n as int) =~= Seq::<char>::empty());
            assert(views_of(r@) + lines_of(cs@.skip(n as int)) =~= prev + lines_of(rest));
            start = n;
        }
    }
    assert(cs@.skip(n as int) =~= Seq::<char>::empty());
    assert(views_of(r@) + lines_of(cs@.skip(n as int)) =~= views_of(r@));
    r
}

/// The decimal digit for `d < 10`.
pub open spec fn digit_char(d: nat) -> char {
    if d == 0 {
        '0'
    } else if d == 1 {
        '1'
    } else if d == 2 {
        '2'
    } else if d == 3 {
        '3'
    } else if d == 4 {
        '4'
    } else if d == 5 {
        '5'
    } else if d == 6 {
        '6'
    } else if d == 7 {
        '7'
    } else if d == 8 {
        '8'
    } else {
        '9'
    }
}

/// The decimal notation of `n`, without leading zeros (`n.to_string()`).
pub open spec fn decimal(n: nat) -> Seq<char>
    decreases n,
{
    if n < 10 {
        seq![digit_char(n)]
    } else {
        decimal(n / 10).push(digit_char(n % 10))
    }
}

fn digit_exec(d: u64) -> (c: char)
    requires
        d < 10,
    ensures
        c == digit_char(d as nat),
{
    if d == 0 {
        '0'
    } else if d == 1 {
        '1'
    } else if d == 2 {
        '2'
    } else if d == 3 {
        '3'
    } else if d == 4 {
        '4'
    } else if d == 5 {
        '5'
    } else if d == 6 {
        '6'
    } else if d == 7 {
        '7'
    } else if d == 8 {
        '8'
    } else {
        '9'
    }
}

/// Appends the decimal notation of `n`.
pub fn push_decimal(s: &mut String, n: u64)
    ensures
        final(s)@ == old(s)@ + decimal(n as nat),
    decreases n,
{
    if n >= 10 {
        push_decimal(s, n / 10);
    }
    push_char(s, digit_exec(n % 10));
    proof {
        if n < 10 {
            assert(decimal(n as nat) == seq![digit_char(n as nat)]);
        }
    }
    assert(final(s)@ =~= old(s)@ + decimal(n as nat));
}

/// The decimal notation of `n`.
pub fn decimal_string(n: u64) -> (r: String)
    ensures
        r@ == decimal(n as nat),
{
    let mut s = String::new();
    push_decimal(&mut s, n);
    assert(s@ =~= decimal(n as nat));
    s
}

} // verus!
