//! Verified character-level string operations: equality, prefix tests,
//! substring search, splitting on a separator and joining again. The
//! topic-merge algorithm is built on these.
use vstd::prelude::*;
use vstd::string::*;

verus! {

/// `pre` is a prefix of `s`.
pub open spec fn is_prefix_of(pre: Seq<char>, s: Seq<char>) -> bool {
    pre.len() <= s.len() && s.subrange(0, pre.len() as int) == pre
}

/// `sub` occurs in `s` at position `i`.
pub open spec fn occurs_at(s: Seq<char>, sub: Seq<char>, i: int) -> bool {
    0 <= i && i + sub.len() <= s.len() && s.subrange(i, i + sub.len()) == sub
}

/// `i` is the leftmost position at which `sub` occurs in `s`.
pub open spec fn first_occurrence_at(s: Seq<char>, sub: Seq<char>, i: int) -> bool {
    occurs_at(s, sub, i) && forall|j: int| 0 <= j < i ==> !occurs_at(s, sub, j)
}

/// Character-for-character equality of two string slices.
pub fn str_eq(a: &str, b: &str) -> (r: bool)
    ensures
        r == (a@ == b@),
{
    let a_len = a.unicode_len();
    let b_len = b.unicode_len();
    if a_len != b_len {
        return false;
    }
    let mut i: usize = 0;
    while i < a_len
        invariant
            i <= a_len,
            a_len == a@.len(),
            b_len == b@.len(),
            a_len == b_len,
            forall|j: int| 0 <= j < i ==> a@[j] == b@[j],
        decreases a_len - i,
    {
        if a.get_char(i) != b.get_char(i) {
            return false;
        }
        i += 1;
    }
    proof {
        assert(a@ =~= b@);
    }
    true
}

/// Does `sub` occur in `s` at position `i`?
fn occurs_at_exec(s: &str, sub: &str, i: usize) -> (r: bool)
    requires
        i + sub@.len() <= s@.len(),
    ensures
        r == occurs_at(s@, sub@, i as int),
{
    let s_len = s.unicode_len();
    let sub_len = sub.unicode_len();
    let mut j: usize = 0;
    while j < sub_len
        invariant
            j <= sub_len,
            sub_len == sub@.len(),
            s_len == s@.len(),
            i + sub_len <= s_len,
            forall|m: int| 0 <= m < j ==> s@[i + m] == sub@[m],
        decreases sub_len - j,
    {
        if s.get_char(i + j) != sub.get_char(j) {
            proof {
                if occurs_at(s@, sub@, i as int) {
                    assert(s@.subrange(i as int, i + sub@.len())[j as int] == s@[i + j]);
                }
            }
            return false;
        }
        j += 1;
    }
    proof {
        assert(s@.subrange(i as int, i + sub@.len()) =~= sub@);
    }
    true
}

/// Position of the leftmost occurrence of `sub` in `s`, if any.
pub fn find_first(s: &str, sub: &str) -> (r: Option<usize>)
    requires
        sub@.len() > 0,
    ensures
        match r {
            Some(i) => first_occurrence_at(s@, sub@, i as int),
            None => forall|j: int| !occurs_at(s@, sub@, j),
        },
{
    let s_len = s.unicode_len();
    let sub_len = sub.unicode_len();
    if sub_len > s_len {
        return None;
    }
    let limit = s_len - sub_len;
    let mut i: usize = 0;
    while i <= limit
        invariant
            sub_len == sub@.len(),
            s_len == s@.len(),
            0 < sub_len <= s_len,
            limit == s_len - sub_len,
            i <= limit + 1,
            forall|j: int| 0 <= j < i ==> !occurs_at(s@, sub@, j),
        decreases limit + 1 - i,
    {
        if occurs_at_exec(s, sub, i) {
            return Some(i);
        }
        i += 1;
    }
    None
}

/// Two positions that are both leftmost occurrences coincide.
pub proof fn lemma_first_occurrence_unique(s: Seq<char>, sub: Seq<char>, i: int, j: int)
    requires
        first_occurrence_at(s, sub, i),
        first_occurrence_at(s, sub, j),
    ensures
        i == j,
{
}

/// `s` split on `sep`: the leftmost occurrence of `sep` separates the first
/// part from the split of the remainder; a string without an occurrence is a
/// single part. An empty separator does not split.
pub open spec fn split_on(s: Seq<char>, sep: Seq<char>) -> Seq<Seq<char>>
    decreases s.len(),
{
    if sep.len() == 0 {
        seq![s]
    } else if exists|i: int| first_occurrence_at(s, sep, i) {
        let i = choose|i: int| first_occurrence_at(s, sep, i);
        seq![s.subrange(0, i)] + split_on(s.subrange(i + sep.len(), s.len() as int), sep)
    } else {
        seq![s]
    }
}

/// The parts joined back together with `sep` between consecutive parts.
pub open spec fn join_with(parts: Seq<Seq<char>>, sep: Seq<char>) -> Seq<char>
    decreases parts.len(),
{
    if parts.len() == 0 {
        Seq::empty()
    } else if parts.len() == 1 {
        parts[0]
    } else {
        join_with(parts.drop_last(), sep) + sep + parts.last()
    }
}

/// Split `s` on the separator `sep`.
pub fn split_str(s: &str, sep: &str) -> (r: Vec<String>)
    requires
        sep@.len() > 0,
    ensures
        r.deep_view() == split_on(s@, sep@),
        r@.len() > 0,
    decreases s@.len(),
{
    let found = find_first(s, sep);
    match found {
        None => {
            let mut parts: Vec<String> = Vec::new();
            parts.push(s.to_owned());
            proof {
                assert(parts.deep_view() =~~= split_on(s@, sep@));
            }
            parts
        },
        Some(i) => {
            let s_len = s.unicode_len();
            let sep_len = sep.unicode_len();
            let head = s.substring_char(0, i);
            let tail = s.substring_char(i + sep_len, s_len);
            let mut parts = split_str(tail, sep);
            parts.insert(0, head.to_owned());
            proof {
                let j = choose|j: int| first_occurrence_at(s@, sep@, j);
                lemma_first_occurrence_unique(s@, sep@, i as int, j);
                assert(parts.deep_view() =~~= seq![s@.subrange(0, i as int)] + split_on(
                    s@.subrange(i + sep@.len(), s@.len() as int),
                    sep@,
                ));
            }
            parts
        },
    }
}

/// Join the parts with `sep` between consecutive parts.
pub fn join_str(parts: &Vec<String>, sep: &str) -> (r: String)
    ensures
        r@ == join_with(parts.deep_view(), sep@),
{
    let mut out = String::new();
    let mut k: usize = 0;
    while k < parts.len()
        invariant
            k <= parts.len(),
            out@ == join_with(parts.deep_view().take(k as int), sep@),
        decreases parts.len() - k,
    {
        if k > 0 {
            out.append(sep);
        }
        out.append(parts[k].as_str());
        proof {
            let dv = parts.deep_view();
            assert(dv.take(k + 1).drop_last() =~~= dv.take(k as int));
            assert(dv.take(k + 1).last() == dv[k as int]);
        }
        k += 1;
    }
    proof {
        assert(parts.deep_view().take(parts@.len() as int) =~~= parts.deep_view());
    }
    out
}

/// Does `s` start with `pre`?
pub fn starts_with_str(s: &str, pre: &str) -> (r: bool)
    ensures
        r == is_prefix_of(pre@, s@),
{
    let s_len = s.unicode_len();
    let pre_len = pre.unicode_len();
    if pre_len > s_len {
        return false;
    }
    let mut i: usize = 0;
    while i < pre_len
        invariant
            i <= pre_len,
            s_len == s@.len(),
            pre_len == pre@.len(),
            pre_len <= s_len,
            forall|j: int| 0 <= j < i ==> s@[j] == pre@[j],
        decreases pre_len - i,
    {
        if s.get_char(i) != pre.get_char(i) {
            proof {
                if is_prefix_of(pre@, s@) {
                    assert(s@.subrange(0, pre@.len() as int)[i as int] == s@[i as int]);
                }
            }
            return false;
        }
        i += 1;
    }
    proof {
        assert(s@.subrange(0, pre@.len() as int) =~= pre@);
    }
    true
}

} // verus!
