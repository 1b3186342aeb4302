//! Character-level helpers shared by the provider adapters: white-space
//! handling, case folding, substring search and lexicographic order.

use vstd::prelude::*;
use vstd::string::StrSliceExecFns;

verus! {

/// Image of Unicode case folding as performed by `str::to_lowercase`.
pub uninterp spec fn lower_of(s: Seq<char>) -> Seq<char>;

/// Image of the Unicode white-space predicate of `char::is_whitespace`.
pub uninterp spec fn is_space_char(c: char) -> bool;

/// Relies on `str::to_lowercase`: the result depends on the characters alone,
/// independent of locale or environment.
#[verifier::external_body]
pub(crate) fn lowercase(s: &str) -> (r: String)
    ensures
        r@ == lower_of(s@),
{
    s.to_lowercase()
}

/// Relies on `char::is_whitespace`: true exactly for Unicode white space,
/// independent of locale or environment.
#[verifier::external_body]
pub(crate) fn is_space(c: char) -> (r: bool)
    ensures
        r == is_space_char(c),
{
    c.is_whitespace()
}

/// True when every character of `s` is white space, i.e. the string trims to
/// nothing.
pub open spec fn blank(s: Seq<char>) -> bool {
    forall|i: int| 0 <= i < s.len() ==> is_space_char(#[trigger] s[i])
}

/// Whether `s` consists of white space only.
pub fn is_blank(s: &str) -> (r: bool)
    ensures
        r == blank(s@),
{
    let n: usize = s.unicode_len();
    let mut i: usize = 0;
    while i < n
        invariant
            n == s@.len(),
            i <= n,
            forall|j: int| 0 <= j < i ==> is_space_char(#[trigger] s@[j]),
        decreases n - i,
    {
        if !is_space(s.get_char(i)) {
            return false;
        }
        i += 1;
    }
    true
}

/// First index at or after `i` where the leading run of white space ends.
pub open spec fn trim_start_idx(s: Seq<char>, i: int) -> int
    decreases s.len() - i,
{
    if 0 <= i < s.len() && is_space_char(s[i]) {
        trim_start_idx(s, i + 1)
    } else {
        i
    }
}

/// Last index at or before `j` where the trailing run of white space begins.
pub open spec fn trim_end_idx(s: Seq<char>, j: int) -> int
    decreases j,
{
    if 0 < j <= s.len() && is_space_char(s[j - 1]) {
        trim_end_idx(s, j - 1)
    } else {
        j
    }
}

/// `s` with leading and trailing white space removed.
pub open spec fn trim_of(s: Seq<char>) -> Seq<char> {
    let lo = trim_start_idx(s, 0);
    let hi = trim_end_idx(s, s.len() as int);
    if lo <= hi {
        s.subrange(lo, hi)
    } else {
        Seq::empty()
    }
}

/// `s` without its leading and trailing white space.
pub fn trim(s: &str) -> (r: &str)
    ensures
        r@ == trim_of(s@),
{
    let n: usize = s.unicode_len();
    let mut lo: usize = 0;
    loop
        invariant
            n == s@.len(),
            lo <= n,
            trim_start_idx(s@, 0) == trim_start_idx(s@, lo as int),
        ensures
            lo <= n,
            trim_start_idx(s@, 0) == lo as int,
        decreases n - lo,
    {
        if lo >= n {
            break ;
        }
        if !is_space(s.get_char(lo)) {
            break ;
        }
        lo += 1;
    }
    let mut hi: usize = n;
    loop
        invariant
            n == s@.len(),
            hi <= n,
            trim_end_idx(s@, n as int) == trim_end_idx(s@, hi as int),
        ensures
            hi <= n,
            trim_end_idx(s@, n as int) == hi as int,
        decreases hi,
    {
        if hi == 0 {
            break ;
        }
        if !is_space(s.get_char(hi - 1)) {
            break ;
        }
        hi -= 1;
    }
    if lo >= hi {
        proof {
            reveal_strlit("");
            if lo <= hi {
                assert(s@.subrange(lo as int, hi as int) =~= Seq::<char>::empty());
            }
            assert(""@ =~= Seq::<char>::empty());
        }
        ""
    } else {
        s.substring_char(lo, hi)
    }
}

/// Whether `n` occurs inside `h` as a contiguous run.
pub open spec fn contains_seq(h: Seq<char>, n: Seq<char>) -> bool {
    exists|i: int| 0 <= i && i + n.len() <= h.len() && #[trigger] h.subrange(i, i + n.len() as int)
        == n
}

/// Substring search: whether `n` occurs inside `h`.
pub fn contains_sub(h: &str, n: &str) -> (r: bool)
    ensures
        r == contains_seq(h@, n@),
{
    let hn: usize = h.unicode_len();
    let nn: usize = n.unicode_len();
    if nn > hn {
        return false;
    }
    if nn == 0 {
        proof {
            assert(h@.subrange(0, 0 + n@.len() as int) =~= n@);
        }
        return true;
    }
    let mut i: usize = 0;
    while i <= hn - nn
        invariant
            hn == h@.len(),
            nn == n@.len(),
            0 < nn <= hn,
            i <= hn - nn + 1,
            forall|k: int| 0 <= k < i ==> #[trigger] h@.subrange(k, k + nn as int) != n@,
        decreases hn - nn - i + 1,
    {
        let mut j: usize = 0;
        let mut matched: bool = true;
        loop
            invariant_except_break
                matched,
            invariant
                hn == h@.len(),
                nn == n@.len(),
                0 < nn <= hn,
                i + nn <= hn,
                j <= nn,
                forall|t: int| 0 <= t < j ==> h@[i + t] == n@[t],
            ensures
                matched ==> forall|t: int| 0 <= t < nn as int ==> h@[i + t] == n@[t],
                !matched ==> h@.subrange(i as int, i + nn as int) != n@,
            decreases nn - j,
        {
            if j >= nn {
                break ;
            }
            if h.get_char(i + j) != n.get_char(j) {
                matched = false;
                proof {
                    assert(h@.subrange(i as int, i + nn as int)[j as int] == h@[i + j]);
                }
                break ;
            }
            j += 1;
        }
        if matched {
            proof {
                assert forall|t: int| 0 <= t < nn as int implies h@.subrange(
                    i as int,
                    i + nn as int,
                )[t] == n@[t] by {
                    assert(h@[i + t] == n@[t]);
                }
                assert(h@.subrange(i as int, i + nn as int) =~= n@);
            }
            return true;
        }
        i += 1;
    }
    proof {
        assert forall|k: int| 0 <= k && k + n@.len() <= h@.len() implies #[trigger] h@.subrange(
            k,
            k + n@.len() as int,
        ) != n@ by {
            assert(k < i);
        }
    }
    false
}

/// First index at or after `from` holding `c`, or the length of `s` when `c`
/// does not occur there.
pub open spec fn find_from(s: Seq<char>, c: char, from: int) -> int
    decreases s.len() - from,
{
    if 0 <= from < s.len() {
        if s[from] == c {
            from
        } else {
            find_from(s, c, from + 1)
        }
    } else {
        s.len() as int
    }
}

/// Scan for the first occurrence of `c` at or after `from`.
pub fn find_char(s: &str, c: char, from: usize) -> (r: usize)
    requires
        from <= s@.len(),
    ensures
        r == find_from(s@, c, from as int),
        from <= r <= s@.len(),
{
    let n: usize = s.unicode_len();
    let mut i: usize = from;
    loop
        invariant
            n == s@.len(),
            from <= i <= n,
            find_from(s@, c, from as int) == find_from(s@, c, i as int),
        ensures
            from <= i <= n,
            find_from(s@, c, from as int) == i as int,
        decreases n - i,
    {
        if i >= n {
            break ;
        }
        if s.get_char(i) == c {
            break ;
        }
        i += 1;
    }
    i
}

/// Where `find_from` lands: at the first occurrence, or at the end when
/// there is none before it.
pub proof fn lemma_find_from_value(s: Seq<char>, c: char, from: int, p: int)
    requires
        0 <= from <= p <= s.len(),
        forall|i: int| from <= i < p ==> s[i] != c,
        p == s.len() || s[p] == c,
    ensures
        find_from(s, c, from) == if p < s.len() {
            p
        } else {
            s.len() as int
        },
    decreases p - from,
{
    if from < p {
        lemma_find_from_value(s, c, from + 1, p);
    }
}

/// Lexicographic order on character sequences by code point, the order in
/// which `str` comparison sorts.
pub open spec fn lex_le(a: Seq<char>, b: Seq<char>) -> bool
    decreases a.len(),
{
    if a.len() == 0 {
        true
    } else if b.len() == 0 {
        false
    } else if (a[0] as u32) < (b[0] as u32) {
        true
    } else if (a[0] as u32) == (b[0] as u32) {
        lex_le(a.drop_first(), b.drop_first())
    } else {
        false
    }
}

/// The lexicographic order relates every pair of sequences one way or the
/// other.
pub proof fn lemma_lex_le_total(a: Seq<char>, b: Seq<char>)
    ensures
        lex_le(a, b) || lex_le(b, a),
    decreases a.len(),
{
    if a.len() != 0 && b.len() != 0 && (a[0] as u32) == (b[0] as u32) {
        lemma_lex_le_total(a.drop_first(), b.drop_first());
    }
}

/// The lexicographic order is transitive.
pub proof fn lemma_lex_le_trans(a: Seq<char>, b: Seq<char>, c: Seq<char>)
    requires
        lex_le(a, b),
        lex_le(b, c),
    ensures
        lex_le(a, c),
    decreases a.len(),
{
    if a.len() != 0 && b.len() != 0 && c.len() != 0 && (a[0] as u32) == (b[0] as u32) && (b[0]
        as u32) == (c[0] as u32) {
        lemma_lex_le_trans(a.drop_first(), b.drop_first(), c.drop_first());
    }
}

/// Compare two strings in lexicographic code-point order.
pub fn str_lex_le(a: &str, b: &str) -> (r: bool)
    ensures
        r == lex_le(a@, b@),
{
    let an: usize = a.unicode_len();
    let bn: usize = b.unicode_len();
    let mut i: usize = 0;
    proof {
        assert(a@.skip(0) =~= a@);
        assert(b@.skip(0) =~= b@);
    }
    loop
        invariant
            an == a@.len(),
            bn == b@.len(),
            i <= an,
            i <= bn,
            forall|t: int| 0 <= t < i ==> a@[t] == b@[t],
            lex_le(a@, b@) == lex_le(a@.skip(i as int), b@.skip(i as int)),
            lex_le(b@, a@) == lex_le(b@.skip(i as int), a@.skip(i as int)),
        decreases an - i,
    {
        if i >= an {
            assert(a@.skip(i as int).len() == 0);
            return true;
        }
        if i >= bn {
            assert(b@.skip(i as int).len() == 0);
            assert(a@.skip(i as int).len() != 0);
            return false;
        }
        let ca = a.get_char(i);
        let cb = b.get_char(i);
        assert(a@.skip(i as int)[0] == a@[i as int]);
        assert(b@.skip(i as int)[0] == b@[i as int]);
        if (ca as u32) < (cb as u32) {
            return true;
        }
        if (ca as u32) > (cb as u32) {
            return false;
        }
        proof {
            assert(a@.skip(i as int).drop_first() =~= a@.skip(i + 1));
            assert(b@.skip(i as int).drop_first() =~= b@.skip(i + 1));
        }
        i += 1;
    }
}

} // verus!
