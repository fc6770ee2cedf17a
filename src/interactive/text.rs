//! Characters and words of a command line.

use vstd::prelude::*;
use vstd::string::StrSliceExecFns;

verus! {

/// Unicode `White_Space`: the characters that separate words.
pub open spec fn is_space(c: char) -> bool {
    let u = c as u32;
    (0x09 <= u <= 0x0d) || u == 0x20 || u == 0x85 || u == 0xa0 || u == 0x1680 || (0x2000 <= u
        <= 0x200a) || u == 0x2028 || u == 0x2029 || u == 0x202f || u == 0x205f || u == 0x3000
}

/// Whether `c` separates words.
pub fn space(c: char) -> (r: bool)
    ensures
        r == is_space(c),
{
    let u = c as u32;
    (0x09 <= u && u <= 0x0d) || u == 0x20 || u == 0x85 || u == 0xa0 || u == 0x1680 || (0x2000
        <= u && u <= 0x200a) || u == 0x2028 || u == 0x2029 || u == 0x202f || u == 0x205f || u
        == 0x3000
}

/// The first index at or after `from` that is not a space, or the length.
pub open spec fn skip_space(s: Seq<char>, from: int) -> int
    decreases s.len() - from,
{
    if from >= s.len() {
        s.len() as int
    } else if is_space(s[from]) {
        skip_space(s, from + 1)
    } else {
        from
    }
}

/// The first index at or after `from` that is a space, or the length.
pub open spec fn skip_word(s: Seq<char>, from: int) -> int
    decreases s.len() - from,
{
    if from >= s.len() {
        s.len() as int
    } else if is_space(s[from]) {
        from
    } else {
        skip_word(s, from + 1)
    }
}

/// The length of `s` without its trailing spaces.
pub open spec fn trimmed_end(s: Seq<char>, to: int) -> int
    decreases to,
{
    if to <= 0 {
        0
    } else if is_space(s[to - 1]) {
        trimmed_end(s, to - 1)
    } else {
        to
    }
}

/// The first word of `s`, if it has one.
pub open spec fn first_word(s: Seq<char>) -> Option<Seq<char>> {
    let i = skip_space(s, 0);
    if i >= s.len() {
        None
    } else {
        Some(s.subrange(i, skip_word(s, i)))
    }
}

/// Whether `s` has a word after its first.
pub open spec fn has_second_word(s: Seq<char>) -> bool {
    skip_space(s, skip_word(s, skip_space(s, 0))) < s.len()
}

proof fn lemma_skip_space_bounds(s: Seq<char>, from: int)
    requires
        0 <= from <= s.len(),
    ensures
        from <= skip_space(s, from) <= s.len(),
    decreases s.len() - from,
{
    if from < s.len() && is_space(s[from]) {
        lemma_skip_space_bounds(s, from + 1);
    }
}

proof fn lemma_skip_word_bounds(s: Seq<char>, from: int)
    requires
        0 <= from <= s.len(),
    ensures
        from <= skip_word(s, from) <= s.len(),
    decreases s.len() - from,
{
    if from < s.len() && !is_space(s[from]) {
        lemma_skip_word_bounds(s, from + 1);
    }
}

proof fn lemma_trimmed_end_bounds(s: Seq<char>, to: int)
    requires
        0 <= to <= s.len(),
    ensures
        0 <= trimmed_end(s, to) <= to,
    decreases to,
{
    if to > 0 && is_space(s[to - 1]) {
        lemma_trimmed_end_bounds(s, to - 1);
    }
}

/// `skip_space` on a string.
pub fn find_nonspace(s: &str, from: usize) -> (r: usize)
    requires
        from <= s@.len(),
    ensures
        r == skip_space(s@, from as int),
        from <= r <= s@.len(),
{
    let n = s.unicode_len();
    let mut i = from;
    proof {
        lemma_skip_space_bounds(s@, from as int);
    }
    while i < n
        invariant
            n == s@.len(),
            from <= i <= n,
            skip_space(s@, i as int) == skip_space(s@, from as int),
        decreases n - i,
    {
        if !space(s.get_char(i)) {
            return i;
        }
        i = i + 1;
    }
    i
}

/// `skip_word` on a string.
pub fn find_space(s: &str, from: usize) -> (r: usize)
    requires
        from <= s@.len(),
    ensures
        r == skip_word(s@, from as int),
        from <= r <= s@.len(),
{
    let n = s.unicode_len();
    let mut i = from;
    proof {
        lemma_skip_word_bounds(s@, from as int);
    }
    while i < n
        invariant
            n == s@.len(),
            from <= i <= n,
            skip_word(s@, i as int) == skip_word(s@, from as int),
        decreases n - i,
    {
        if space(s.get_char(i)) {
            return i;
        }
        i = i + 1;
    }
    i
}

/// `trimmed_end` of the whole string.
pub fn trim_end_index(s: &str) -> (r: usize)
    ensures
        r == trimmed_end(s@, s@.len() as int),
        r <= s@.len(),
{
    let n = s.unicode_len();
    let mut i = n;
    proof {
        lemma_trimmed_end_bounds(s@, n as int);
    }
    while i > 0
        invariant
            n == s@.len(),
            i <= n,
            trimmed_end(s@, i as int) == trimmed_end(s@, n as int),
        decreases i,
    {
        if !space(s.get_char(i - 1)) {
            return i;
        }
        i = i - 1;
    }
    i
}

/// Whether the two strings hold the same characters.
pub fn str_equal(a: &str, b: &str) -> (r: bool)
    ensures
        r == (a@ == b@),
{
    let n = a.unicode_len();
    if n != b.unicode_len() {
        return false;
    }
    let mut i: usize = 0;
    while i < n
        invariant
            n == a@.len(),
            n == b@.len(),
            i <= n,
            a@.subrange(0, i as int) == b@.subrange(0, i as int),
        decreases n - i,
    {
        if a.get_char(i) != b.get_char(i) {
            assert(a@[i as int] != b@[i as int]);
            return false;
        }
        assert(a@.subrange(0, i + 1) =~= a@.subrange(0, i as int).push(a@[i as int]));
        assert(b@.subrange(0, i + 1) =~= b@.subrange(0, i as int).push(b@[i as int]));
        i = i + 1;
    }
    assert(a@ =~= a@.subrange(0, n as int));
    assert(b@ =~= b@.subrange(0, n as int));
    true
}

/// Whether `s` begins with `prefix`.
pub fn starts_with(s: &str, prefix: &str) -> (r: bool)
    ensures
        r == prefix@.is_prefix_of(s@),
{
    let n = prefix.unicode_len();
    if n > s.unicode_len() {
        return false;
    }
    let mut i: usize = 0;
    while i < n
        invariant
            n == prefix@.len(),
            n <= s@.len(),
            i <= n,
            forall|j: int| 0 <= j < i ==> prefix@[j] == s@[j],
        decreases n - i,
    {
        if prefix.get_char(i) != s.get_char(i) {
            return false;
        }
        i = i + 1;
    }
    true
}

/// Splits `s` into its first word and the rest, both without surrounding
/// spaces.
pub fn split_first_word(s: &str) -> (r: (&str, &str))
    ensures
        ({
            let i = skip_space(s@, 0);
            let j = skip_word(s@, i);
            let k = skip_space(s@, j);
            let e = trimmed_end(s@, s@.len() as int);
            &&& r.0@ == s@.subrange(i, j)
            &&& r.1@ == if k < e {
                s@.subrange(k, e)
            } else {
                Seq::<char>::empty()
            }
        }),
{
    let i = find_nonspace(s, 0);
    let j = find_space(s, i);
    let k = find_nonspace(s, j);
    let e = trim_end_index(s);
    let word = s.substring_char(i, j);
    if k < e {
        (word, s.substring_char(k, e))
    } else {
        (word, s.substring_char(0, 0))
    }
}

} // verus!
