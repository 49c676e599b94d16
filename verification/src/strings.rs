//! Verified utilities over `&str` / `String`, stated over `Seq<char>` views.

use vstd::prelude::*;

verus! {

use vstd::string::StrSliceExecFns;
use vstd::string::StringExecFns;

/// True when `c` occurs somewhere in `s`.
pub open spec fn contains_char(s: Seq<char>, c: char) -> bool {
    exists|i: int| 0 <= i < s.len() && s[i] == c
}

/// Index of the first occurrence of `c` in `s`, or -1 when absent.
pub open spec fn first_index_of(s: Seq<char>, c: char) -> int
    decreases s.len(),
{
    if s.len() == 0 {
        -1
    } else if s[0] == c {
        0
    } else {
        let rest = first_index_of(s.drop_first(), c);
        if rest == -1 {
            -1
        } else {
            rest + 1
        }
    }
}

/// Index of the last occurrence of `c` in `s`, or -1 when absent.
pub open spec fn last_index_of(s: Seq<char>, c: char) -> int
    decreases s.len(),
{
    if s.len() == 0 {
        -1
    } else if s[s.len() - 1] == c {
        s.len() - 1
    } else {
        last_index_of(s.drop_last(), c)
    }
}

pub proof fn lemma_first_index_of(s: Seq<char>, c: char)
    ensures
        -1 <= first_index_of(s, c) < s.len(),
        contains_char(s, c) <==> 0 <= first_index_of(s, c) < s.len(),
        contains_char(s, c) ==> s[first_index_of(s, c)] == c,
        contains_char(s, c) ==> forall|j: int| 0 <= j < first_index_of(s, c) ==> s[j] != c,
    decreases s.len(),
{
    if s.len() == 0 {
    } else if s[0] == c {
    } else {
        lemma_first_index_of(s.drop_first(), c);
        if contains_char(s, c) {
            let w = choose|i: int| 0 <= i < s.len() && s[i] == c;
            assert(s.drop_first()[w - 1] == c);
            assert(contains_char(s.drop_first(), c));
        }
        if contains_char(s.drop_first(), c) {
            let w = choose|i: int| 0 <= i < s.drop_first().len() && s.drop_first()[i] == c;
            assert(s[w + 1] == c);
        }
        if contains_char(s, c) {
            let f = first_index_of(s, c);
            assert(f == first_index_of(s.drop_first(), c) + 1);
            assert forall|j: int| 0 <= j < f implies s[j] != c by {
                if j > 0 {
                    assert(s.drop_first()[j - 1] != c);
                    assert(s[j] == s.drop_first()[j - 1]);
                }
            }
        }
    }
}

pub proof fn lemma_last_index_of(s: Seq<char>, c: char)
    ensures
        -1 <= last_index_of(s, c) < s.len(),
        contains_char(s, c) <==> 0 <= last_index_of(s, c) < s.len(),
        contains_char(s, c) ==> s[last_index_of(s, c)] == c,
        contains_char(s, c) ==> forall|j: int| last_index_of(s, c) < j < s.len() ==> s[j] != c,
    decreases s.len(),
{
    if s.len() == 0 {
    } else if s[s.len() - 1] == c {
    } else {
        lemma_last_index_of(s.drop_last(), c);
        if contains_char(s, c) {
            let w = choose|i: int| 0 <= i < s.len() && s[i] == c;
            assert(w != s.len() - 1);
            assert(s.drop_last()[w] == c);
            assert(contains_char(s.drop_last(), c));
        }
        if contains_char(s.drop_last(), c) {
            let w = choose|i: int| 0 <= i < s.drop_last().len() && s.drop_last()[i] == c;
            assert(s[w] == c);
        }
        if contains_char(s, c) {
            let l = last_index_of(s, c);
            assert(l == last_index_of(s.drop_last(), c));
            assert forall|j: int| l < j < s.len() implies s[j] != c by {
                if j < s.len() - 1 {
                    assert(s.drop_last()[j] != c);
                    assert(s[j] == s.drop_last()[j]);
                }
            }
        }
    }
}

/// Number of occurrences of `c` in `s`.
pub open spec fn count_char(s: Seq<char>, c: char) -> int
    decreases s.len(),
{
    if s.len() == 0 {
        0
    } else {
        count_char(s.drop_last(), c) + if s.last() == c {
            1int
        } else {
            0int
        }
    }
}

pub proof fn lemma_count_char_bound(s: Seq<char>, c: char)
    ensures
        0 <= count_char(s, c) <= s.len(),
    decreases s.len(),
{
    if s.len() > 0 {
        lemma_count_char_bound(s.drop_last(), c);
    }
}

/// Equality of two string slices, decided character by character.
pub fn str_eq(a: &str, b: &str) -> (r: bool)
    ensures
        r == (a@ == b@),
{
    let alen = a.unicode_len();
    let blen = b.unicode_len();
    if alen != blen {
        proof {
            assert(a@.len() != b@.len());
        }
        return false;
    }
    let mut i: usize = 0;
    while i < alen
        invariant
            i <= alen,
            alen == a@.len(),
            alen == b@.len(),
            forall|j: int| 0 <= j < i ==> a@[j] == b@[j],
        decreases alen - i,
    {
        if a.get_char(i) != b.get_char(i) {
            return false;
        }
        i += 1;
    }
    proof {
        assert(a@ =~= b@);
    }
    true
}

/// True when `s` begins with `prefix`.
pub fn str_starts_with(s: &str, prefix: &str) -> (r: bool)
    ensures
        r == prefix@.is_prefix_of(s@),
{
    let slen = s.unicode_len();
    let plen = prefix.unicode_len();
    if plen > slen {
        return false;
    }
    let mut i: usize = 0;
    while i < plen
        invariant
            i <= plen,
            plen <= slen,
            slen == s@.len(),
            plen == prefix@.len(),
            forall|j: int| 0 <= j < i ==> s@[j] == prefix@[j],
        decreases plen - i,
    {
        if s.get_char(i) != prefix.get_char(i) {
            return false;
        }
        i += 1;
    }
    proof {
        assert(s@.subrange(0, prefix@.len() as int) =~= prefix@);
    }
    true
}

/// True when `s` ends with `suffix`.
pub fn str_ends_with(s: &str, suffix: &str) -> (r: bool)
    ensures
        r == suffix@.is_suffix_of(s@),
{
    let slen = s.unicode_len();
    let xlen = suffix.unicode_len();
    if xlen > slen {
        return false;
    }
    let off = slen - xlen;
    let mut i: usize = 0;
    while i < xlen
        invariant
            i <= xlen,
            off == slen - xlen,
            xlen <= slen,
            slen == s@.len(),
            xlen == suffix@.len(),
            forall|j: int| 0 <= j < i ==> s@[off + j] == suffix@[j],
        decreases xlen - i,
    {
        if s.get_char(off + i) != suffix.get_char(i) {
            return false;
        }
        i += 1;
    }
    proof {
        assert(s@.subrange(s@.len() - suffix@.len(), s@.len() as int) =~= suffix@);
    }
    true
}

/// Position of the first `.` in `s`, if any.
pub fn find_first_dot(s: &str) -> (r: Option<usize>)
    ensures
        match r {
            Some(i) => i == first_index_of(s@, '.') && 0 <= i < s@.len(),
            None => !contains_char(s@, '.'),
        },
{
    let len = s.unicode_len();
    let mut i: usize = 0;
    proof {
        lemma_first_index_of(s@, '.');
    }
    while i < len
        invariant
            i <= len,
            len == s@.len(),
            forall|j: int| 0 <= j < i ==> s@[j] != '.',
        decreases len - i,
    {
        if s.get_char(i) == '.' {
            proof {
                lemma_first_index_of(s@, '.');
                assert(contains_char(s@, '.'));
                assert forall|j: int| 0 <= j < first_index_of(s@, '.') implies s@[j] != '.' by {}
                assert(first_index_of(s@, '.') == i) by {
                    let f = first_index_of(s@, '.');
                    if f < i {
                        assert(s@[f] == '.');
                    }
                    if f > i {
                        assert(s@[i as int] != '.');
                    }
                }
            }
            return Some(i);
        }
        i += 1;
    }
    proof {
        lemma_first_index_of(s@, '.');
    }
    None
}

/// Position of the last `.` in `s`, if any.
pub fn find_last_dot(s: &str) -> (r: Option<usize>)
    ensures
        match r {
            Some(i) => i == last_index_of(s@, '.') && 0 <= i < s@.len(),
            None => !contains_char(s@, '.'),
        },
{
    let len = s.unicode_len();
    let mut i: usize = len;
    while i > 0
        invariant
            i <= len,
            len == s@.len(),
            forall|j: int| i <= j < len ==> s@[j] != '.',
        decreases i,
    {
        i -= 1;
        if s.get_char(i) == '.' {
            proof {
                lemma_last_index_of(s@, '.');
                assert(contains_char(s@, '.'));
                assert(last_index_of(s@, '.') == i) by {
                    let f = last_index_of(s@, '.');
                    if f > i {
                        assert(s@[f] == '.');
                    }
                    if f < i {
                        assert(s@[i as int] != '.');
                    }
                }
            }
            return Some(i);
        }
    }
    proof {
        lemma_last_index_of(s@, '.');
    }
    None
}

/// Position of the last `/` in `s`, if any.
pub fn find_last_slash(s: &str) -> (r: Option<usize>)
    ensures
        match r {
            Some(i) => i == last_index_of(s@, '/') && 0 <= i < s@.len(),
            None => !contains_char(s@, '/'),
        },
{
    let len = s.unicode_len();
    let mut i: usize = len;
    while i > 0
        invariant
            i <= len,
            len == s@.len(),
            forall|j: int| i <= j < len ==> s@[j] != '/',
        decreases i,
    {
        i -= 1;
        if s.get_char(i) == '/' {
            proof {
                lemma_last_index_of(s@, '/');
                assert(contains_char(s@, '/'));
                assert(last_index_of(s@, '/') == i) by {
                    let f = last_index_of(s@, '/');
                    if f > i {
                        assert(s@[f] == '/');
                    }
                    if f < i {
                        assert(s@[i as int] != '/');
                    }
                }
            }
            return Some(i);
        }
    }
    proof {
        lemma_last_index_of(s@, '/');
    }
    None
}

/// True when `s` contains a `.`.
pub fn contains_dot(s: &str) -> (r: bool)
    ensures
        r == contains_char(s@, '.'),
{
    proof {
        lemma_first_index_of(s@, '.');
    }
    match find_first_dot(s) {
        Some(_) => true,
        None => false,
    }
}

/// The characters of `s` before index `n`.
pub fn str_take<'a>(s: &'a str, n: usize) -> (r: &'a str)
    requires
        n <= s@.len(),
    ensures
        r@ == s@.take(n as int),
{
    let r = s.substring_char(0, n);
    proof {
        assert(s@.subrange(0, n as int) =~= s@.take(n as int));
    }
    r
}

/// The characters of `s` from index `n` on.
pub fn str_skip<'a>(s: &'a str, n: usize) -> (r: &'a str)
    requires
        n <= s@.len(),
    ensures
        r@ == s@.skip(n as int),
{
    let len = s.unicode_len();
    let r = s.substring_char(n, len);
    proof {
        assert(s@.subrange(n as int, s@.len() as int) =~= s@.skip(n as int));
    }
    r
}

/// Number of `.` characters in `s`.
pub fn count_dots(s: &str) -> (r: usize)
    ensures
        r == count_char(s@, '.'),
{
    let len = s.unicode_len();
    let mut i: usize = 0;
    let mut cnt: usize = 0;
    proof {
        lemma_count_char_bound(s@, '.');
    }
    while i < len
        invariant
            i <= len,
            len == s@.len(),
            cnt == count_char(s@.take(i as int), '.'),
            cnt <= i,
        decreases len - i,
    {
        proof {
            assert(s@.take(i + 1).drop_last() =~= s@.take(i as int));
            assert(s@.take(i + 1).last() == s@[i as int]);
        }
        if s.get_char(i) == '.' {
            cnt += 1;
        }
        i += 1;
    }
    proof {
        assert(s@.take(len as int) =~= s@);
    }
    cnt
}

/// `a + "." + b`.
pub fn concat_dot(a: &str, b: &str) -> (r: String)
    ensures
        r@ == a@ + seq!['.'] + b@,
{
    let mut out = String::from_str(a);
    out.append(".");
    out.append(b);
    proof {
        reveal_strlit(".");
        assert("."@ =~= seq!['.']);
    }
    out
}

/// `a + b`.
pub fn concat_str(a: &str, b: &str) -> (r: String)
    ensures
        r@ == a@ + b@,
{
    let mut out = String::from_str(a);
    out.append(b);
    out
}

} // verus!
