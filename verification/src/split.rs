//! Splitting a token into leading punctuation, core word, and trailing
//! punctuation.

use vstd::prelude::*;
use vstd::string::StrSliceExecFns;

use crate::chars::is_punct_char;
use crate::chars::is_punctuation;

verus! {

/// Length of the longest run of ASCII punctuation at the start of `s`.
pub open spec fn punct_prefix_len(s: Seq<char>) -> nat
    decreases s.len(),
{
    if s.len() == 0 || !is_punct_char(s[0]) {
        0
    } else {
        (1 + punct_prefix_len(s.drop_first())) as nat
    }
}

/// Length of the longest run of ASCII punctuation at the end of `s`.
pub open spec fn punct_suffix_len(s: Seq<char>) -> nat
    decreases s.len(),
{
    if s.len() == 0 || !is_punct_char(s[s.len() - 1]) {
        0
    } else {
        (1 + punct_suffix_len(s.drop_last())) as nat
    }
}

/// The three parts of a token: longest punctuation run at the start, the
/// core in the middle, longest punctuation run at the end. A token that is
/// punctuation throughout goes entirely to the prefix, with core and suffix
/// empty.
pub open spec fn split_spec(s: Seq<char>) -> (Seq<char>, Seq<char>, Seq<char>) {
    let p = punct_prefix_len(s) as int;
    if p == s.len() {
        (s, Seq::<char>::empty(), Seq::<char>::empty())
    } else {
        let rest = s.skip(p);
        let q = punct_suffix_len(rest) as int;
        (s.take(p), rest.take(rest.len() - q), rest.skip(rest.len() - q))
    }
}

proof fn lemma_punct_prefix_len_le(s: Seq<char>)
    ensures
        punct_prefix_len(s) <= s.len(),
    decreases s.len(),
{
    if s.len() > 0 && is_punct_char(s[0]) {
        lemma_punct_prefix_len_le(s.drop_first());
    }
}

proof fn lemma_punct_suffix_len_le(s: Seq<char>)
    ensures
        punct_suffix_len(s) <= s.len(),
    decreases s.len(),
{
    if s.len() > 0 && is_punct_char(s[s.len() - 1]) {
        lemma_punct_suffix_len_le(s.drop_last());
    }
}

/// A scan that saw punctuation on `[0, i)` and stopped at `i` because the
/// string ended or a non-punctuation character stood there has found the
/// longest punctuation prefix.
proof fn lemma_punct_prefix_len_from_scan(s: Seq<char>, i: int)
    requires
        0 <= i <= s.len(),
        forall|j: int| 0 <= j < i ==> is_punct_char(s[j]),
        i < s.len() ==> !is_punct_char(s[i]),
    ensures
        punct_prefix_len(s) == i,
    decreases i,
{
    if i == 0 {
    } else {
        assert(is_punct_char(s[0]));
        assert forall|j: int| 0 <= j < i - 1 implies is_punct_char(s.drop_first()[j]) by {
            assert(s.drop_first()[j] == s[j + 1]);
        }
        if i - 1 < s.len() - 1 {
            assert(s.drop_first()[i - 1] == s[i]);
        }
        lemma_punct_prefix_len_from_scan(s.drop_first(), i - 1);
    }
}

/// The mirror image for a scan from the end: punctuation on `[i, len)` and
/// either `i == 0` or a non-punctuation character at `i - 1`.
proof fn lemma_punct_suffix_len_from_scan(s: Seq<char>, i: int)
    requires
        0 <= i <= s.len(),
        forall|j: int| i <= j < s.len() ==> is_punct_char(s[j]),
        i > 0 ==> !is_punct_char(s[i - 1]),
    ensures
        punct_suffix_len(s) == s.len() - i,
    decreases s.len() - i,
{
    if i == s.len() {
        if s.len() > 0 {
            assert(!is_punct_char(s[s.len() - 1]));
        }
    } else {
        assert(is_punct_char(s[s.len() - 1]));
        assert forall|j: int| i <= j < s.drop_last().len() implies is_punct_char(
            s.drop_last()[j],
        ) by {
            assert(s.drop_last()[j] == s[j]);
        }
        lemma_punct_suffix_len_from_scan(s.drop_last(), i);
    }
}

/// Reconstruction: the three parts of a token concatenate back to the token
/// itself, whatever the token holds.
pub proof fn lemma_split_reconstructs(t: Seq<char>)
    ensures
        split_spec(t).0 + split_spec(t).1 + split_spec(t).2 == t,
{
    lemma_punct_prefix_len_le(t);
    let p = punct_prefix_len(t) as int;
    if p == t.len() {
        assert(split_spec(t).0 + split_spec(t).1 + split_spec(t).2 =~= t);
    } else {
        let rest = t.skip(p);
        lemma_punct_suffix_len_le(rest);
        assert(split_spec(t).0 + split_spec(t).1 + split_spec(t).2 =~= t);
    }
}

/// Splits a token into leading punctuation, core, and trailing punctuation,
/// trimming the longest ASCII punctuation run from each end. The three
/// slices always concatenate back to the input.
pub fn split_punctuation<'a>(s: &'a str) -> (r: (&'a str, &'a str, &'a str))
    ensures
        r.0@ == split_spec(s@).0,
        r.1@ == split_spec(s@).1,
        r.2@ == split_spec(s@).2,
        r.0@ + r.1@ + r.2@ == s@,
{
    let n = s.unicode_len();
    let mut p: usize = 0;
    while p < n && is_punctuation(s.get_char(p))
        invariant
            0 <= p <= n,
            n == s@.len(),
            forall|j: int| 0 <= j < p ==> is_punct_char(s@[j]),
        decreases n - p,
    {
        p = p + 1;
    }
    proof {
        lemma_punct_prefix_len_from_scan(s@, p as int);
        lemma_split_reconstructs(s@);
    }
    if p == n {
        let prefix = s.substring_char(0, n);
        let empty = s.substring_char(n, n);
        proof {
            assert(prefix@ =~= split_spec(s@).0);
            assert(empty@ =~= Seq::<char>::empty());
        }
        (prefix, empty, empty)
    } else {
        let mut e: usize = n;
        while is_punctuation(s.get_char(e - 1))
            invariant
                p < e <= n,
                n == s@.len(),
                p < n,
                !is_punct_char(s@[p as int]),
                forall|j: int| e <= j < n ==> is_punct_char(s@[j]),
            decreases e,
        {
            e = e - 1;
        }
        proof {
            let rest = s@.skip(p as int);
            assert forall|j: int| e - p <= j < rest.len() implies is_punct_char(rest[j]) by {
                assert(rest[j] == s@[j + p]);
            }
            assert(rest[e - p - 1] == s@[e - 1]);
            lemma_punct_suffix_len_from_scan(rest, e - p);
        }
        let prefix = s.substring_char(0, p);
        let core = s.substring_char(p, e);
        let suffix = s.substring_char(e, n);
        proof {
            assert(prefix@ =~= split_spec(s@).0);
            assert(core@ =~= split_spec(s@).1);
            assert(suffix@ =~= split_spec(s@).2);
        }
        (prefix, core, suffix)
    }
}

} // verus!
