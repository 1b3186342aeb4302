//! Parsing free-form search input into a structured address query: the last
//! white-space separated token is taken as a house number when it carries a
//! digit.

use crate::numbers::is_digit;
use crate::ports::AddressSearch;
use crate::text::is_space;
use crate::text::is_space_char;
use crate::text::trim_start_idx;
use vstd::prelude::*;
use vstd::string::StrSliceExecFns;
use vstd::string::StringExecFns;

verus! {

/// First index at or after `i` where the current run of non-space characters
/// ends.
pub open spec fn token_end(s: Seq<char>, i: int) -> int
    decreases s.len() - i,
{
    if 0 <= i < s.len() && !is_space_char(s[i]) {
        token_end(s, i + 1)
    } else {
        i
    }
}

/// `token_end` never moves backwards and stays within the sequence.
proof fn lemma_token_end_bounds(s: Seq<char>, i: int)
    requires
        0 <= i <= s.len(),
    ensures
        i <= token_end(s, i) <= s.len(),
    decreases s.len() - i,
{
    if i < s.len() && !is_space_char(s[i]) {
        lemma_token_end_bounds(s, i + 1);
    }
}

/// `trim_start_idx` never moves backwards and stays within the sequence.
proof fn lemma_trim_start_bounds(s: Seq<char>, i: int)
    requires
        0 <= i <= s.len(),
    ensures
        i <= trim_start_idx(s, i) <= s.len(),
    decreases s.len() - i,
{
    if i < s.len() && is_space_char(s[i]) {
        lemma_trim_start_bounds(s, i + 1);
    }
}

/// When `trim_start_idx` stops inside the sequence it stops on a non-space
/// character.
proof fn lemma_trim_start_nonspace(s: Seq<char>, i: int)
    requires
        0 <= i <= s.len(),
    ensures
        trim_start_idx(s, i) < s.len() ==> !is_space_char(s[trim_start_idx(s, i)]),
    decreases s.len() - i,
{
    if i < s.len() && is_space_char(s[i]) {
        lemma_trim_start_nonspace(s, i + 1);
    }
}

/// The white-space separated tokens of `s`, from index `i` on.
pub open spec fn split_ws_from(s: Seq<char>, i: int) -> Seq<Seq<char>>
    decreases s.len() - i,
    when 0 <= i <= s.len()
    via split_ws_from_decreases
{
    let j = trim_start_idx(s, i);
    if j >= s.len() {
        Seq::empty()
    } else {
        seq![s.subrange(j, token_end(s, j))] + split_ws_from(s, token_end(s, j))
    }
}

#[via_fn]
proof fn split_ws_from_decreases(s: Seq<char>, i: int) {
    lemma_trim_start_bounds(s, i);
    let j = trim_start_idx(s, i);
    if j < s.len() {
        lemma_trim_start_nonspace(s, i);
        lemma_token_end_bounds(s, j + 1);
        assert(token_end(s, j) == token_end(s, j + 1));
    }
}

/// The white-space separated tokens of `s`.
pub open spec fn split_ws(s: Seq<char>) -> Seq<Seq<char>> {
    split_ws_from(s, 0)
}

/// The tokens joined back together with single spaces.
pub open spec fn join_ws(parts: Seq<Seq<char>>) -> Seq<char>
    decreases parts.len(),
{
    if parts.len() == 0 {
        Seq::empty()
    } else if parts.len() == 1 {
        parts[0]
    } else {
        join_ws(parts.drop_last()) + seq![' '] + parts.last()
    }
}

/// Whether `s` holds an ASCII decimal digit anywhere.
pub open spec fn has_ascii_digit(s: Seq<char>) -> bool {
    exists|i: int| 0 <= i < s.len() && is_digit(#[trigger] s[i])
}

/// Advance past white space.
fn skip_spaces(s: &str, from: usize) -> (r: usize)
    requires
        from <= s@.len(),
    ensures
        r == trim_start_idx(s@, from as int),
        from <= r <= s@.len(),
{
    let n: usize = s.unicode_len();
    let mut i: usize = from;
    loop
        invariant
            n == s@.len(),
            from <= i <= n,
            trim_start_idx(s@, from as int) == trim_start_idx(s@, i as int),
        ensures
            from <= i <= n,
            trim_start_idx(s@, from as int) == i as int,
        decreases n - i,
    {
        if i >= n {
            break ;
        }
        if !is_space(s.get_char(i)) {
            break ;
        }
        i += 1;
    }
    i
}

/// Advance to the end of the current token.
fn scan_token(s: &str, from: usize) -> (r: usize)
    requires
        from <= s@.len(),
    ensures
        r == token_end(s@, from as int),
        from <= r <= s@.len(),
{
    let n: usize = s.unicode_len();
    let mut i: usize = from;
    loop
        invariant
            n == s@.len(),
            from <= i <= n,
            token_end(s@, from as int) == token_end(s@, i as int),
        ensures
            from <= i <= n,
            token_end(s@, from as int) == i as int,
        decreases n - i,
    {
        if i >= n {
            break ;
        }
        if is_space(s.get_char(i)) {
            break ;
        }
        i += 1;
    }
    i
}

/// Whether the string holds an ASCII digit.
fn has_digit_str(s: &str) -> (r: bool)
    ensures
        r == has_ascii_digit(s@),
{
    let n: usize = s.unicode_len();
    let mut i: usize = 0;
    while i < n
        invariant
            n == s@.len(),
            i <= n,
            forall|t: int| 0 <= t < i ==> !is_digit(#[trigger] s@[t]),
        decreases n - i,
    {
        let cu: u32 = s.get_char(i) as u32;
        if 48 <= cu && cu <= 57 {
            return true;
        }
        i += 1;
    }
    false
}

/// Join the first `upto` parts with single spaces.
fn join_parts(parts: &Vec<String>, upto: usize) -> (r: String)
    requires
        upto <= parts@.len(),
    ensures
        r@ == join_ws(parts@.map_values(|p: String| p@).subrange(0, upto as int)),
{
    let ghost pv = parts@.map_values(|p: String| p@);
    let mut out = String::new();
    let mut k: usize = 0;
    while k < upto
        invariant
            upto <= parts@.len(),
            pv == parts@.map_values(|p: String| p@),
            k <= upto,
            out@ == join_ws(pv.subrange(0, k as int)),
        decreases upto - k,
    {
        if k > 0 {
            proof {
                reveal_strlit(" ");
                assert(" "@ =~= seq![' ']);
            }
            out.append(" ");
        }
        out.append(parts[k].as_str());
        proof {
            if k == 0 {
                assert(pv.subrange(0, 1).len() == 1);
                assert(join_ws(pv.subrange(0, 1)) == pv.subrange(0, 1)[0]);
                assert(out@ =~= join_ws(pv.subrange(0, k + 1)));
            } else {
                assert(pv.subrange(0, k + 1).drop_last() =~= pv.subrange(0, k as int));
                assert(pv.subrange(0, k + 1).last() == pv[k as int]);
                assert(out@ =~= join_ws(pv.subrange(0, k + 1)));
            }
        }
        k += 1;
    }
    out
}

/// Split the search box input into a street and an optional house number:
/// the last token is a house number when it carries a digit and is not the
/// only token.
pub fn parse_search_input(input: &str) -> (q: AddressSearch)
    ensures
        split_ws(input@).len() == 0 ==> q.street@ == Seq::<char>::empty() && q.house_number
            is None,
        ({
            let parts = split_ws(input@);
            parts.len() >= 2 && has_ascii_digit(parts.last()) ==> q.street@ == join_ws(
                parts.drop_last(),
            ) && (q.house_number matches Some(h) && h@ == parts.last())
        }),
        ({
            let parts = split_ws(input@);
            parts.len() >= 1 && !(parts.len() >= 2 && has_ascii_digit(parts.last()))
                ==> q.street@ == join_ws(parts) && q.house_number is None
        }),
{
    let ghost sv = input@;
    let n: usize = input.unicode_len();
    let mut parts: Vec<String> = Vec::new();
    let mut i: usize = 0;
    loop
        invariant
            n == sv.len(),
            sv == input@,
            i <= n,
            parts@.map_values(|p: String| p@) + split_ws_from(sv, i as int) == split_ws(sv),
        ensures
            parts@.map_values(|p: String| p@) == split_ws(sv),
        decreases n - i,
    {
        let j = skip_spaces(input, i);
        if j >= n {
            proof {
                assert(split_ws_from(sv, i as int) =~= Seq::<Seq<char>>::empty());
                assert(parts@.map_values(|p: String| p@) =~= split_ws(sv));
            }
            break ;
        }
        let e = scan_token(input, j);
        proof {
            lemma_trim_start_nonspace(sv, i as int);
            lemma_token_end_bounds(sv, j + 1);
            assert(token_end(sv, j as int) == token_end(sv, j + 1));
        }
        let tok = input.substring_char(j, e).to_owned();
        let ghost old_map = parts@.map_values(|p: String| p@);
        parts.push(tok);
        proof {
            assert(parts@.map_values(|p: String| p@) =~= old_map + seq![sv.subrange(
                j as int,
                e as int,
            )]);
            assert(split_ws_from(sv, i as int) == seq![sv.subrange(j as int, e as int)]
                + split_ws_from(sv, e as int));
            assert(parts@.map_values(|p: String| p@) + split_ws_from(sv, e as int) =~= old_map
                + split_ws_from(sv, i as int));
        }
        i = e;
    }
    let m: usize = parts.len();
    if m == 0 {
        return AddressSearch::new(String::new(), None);
    }
    let has_number: bool = m >= 2 && has_digit_str(parts[m - 1].as_str());
    proof {
        assert(parts@.map_values(|p: String| p@)[m - 1] == parts@[m - 1]@);
    }
    if has_number {
        let street = join_parts(&parts, m - 1);
        let house = parts[m - 1].clone();
        proof {
            assert(split_ws(sv).subrange(0, m - 1) =~= split_ws(sv).drop_last());
        }
        AddressSearch::new(street, Some(house))
    } else {
        let street = join_parts(&parts, m);
        proof {
            assert(split_ws(sv).subrange(0, m as int) =~= split_ws(sv));
        }
        AddressSearch::new(street, None)
    }
}

} // verus!
