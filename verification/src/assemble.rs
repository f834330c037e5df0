//! Splitting input into tokens, converting each, and joining the results
//! with single spaces.

use vstd::prelude::*;
use vstd::string::StrSliceExecFns;
use vstd::string::StringExecFns;

use crate::chars::is_space_char;
use crate::chars::is_separator;
use crate::split::lemma_split_reconstructs;
use crate::split::split_punctuation;
use crate::split::split_spec;
use crate::transpose::convert_word;
use crate::transpose::transpose_spec;

verus! {

/// A converted token: leading punctuation, the transposed core, trailing
/// punctuation.
pub open spec fn convert_token_spec(t: Seq<char>) -> Seq<char> {
    split_spec(t).0 + transpose_spec(split_spec(t).1) + split_spec(t).2
}

/// Length of the longest run of non-whitespace characters at the start of
/// `s`.
pub open spec fn token_run(s: Seq<char>) -> nat
    decreases s.len(),
{
    if s.len() == 0 || is_space_char(s[0]) {
        0
    } else {
        (1 + token_run(s.drop_first())) as nat
    }
}

proof fn lemma_token_run_le(s: Seq<char>)
    ensures
        token_run(s) <= s.len(),
    decreases s.len(),
{
    if s.len() > 0 && !is_space_char(s[0]) {
        lemma_token_run_le(s.drop_first());
    }
}

/// The whitespace-delimited tokens of `s`, in order: whitespace is skipped,
/// and each token is a maximal run of non-whitespace characters.
pub open spec fn tokens_spec(s: Seq<char>) -> Seq<Seq<char>>
    decreases s.len(),
    via tokens_spec_decreases
{
    if s.len() == 0 {
        Seq::<Seq<char>>::empty()
    } else if is_space_char(s[0]) {
        tokens_spec(s.drop_first())
    } else {
        seq![s.take(token_run(s) as int)] + tokens_spec(s.skip(token_run(s) as int))
    }
}

#[via_fn]
proof fn tokens_spec_decreases(s: Seq<char>) {
    lemma_token_run_le(s);
}

/// The converted tokens joined with a single space between neighbours.
pub open spec fn convert_tokens_spec(ts: Seq<Seq<char>>) -> Seq<char>
    decreases ts.len(),
{
    if ts.len() == 0 {
        Seq::<char>::empty()
    } else if ts.len() == 1 {
        convert_token_spec(ts[0])
    } else {
        convert_token_spec(ts[0]) + seq![' '] + convert_tokens_spec(ts.drop_first())
    }
}

/// The whole transformation: tokenize, convert each token, join with
/// single spaces.
pub open spec fn convert_string_spec(s: Seq<char>) -> Seq<char> {
    convert_tokens_spec(tokens_spec(s))
}

/// Punctuation round-trip: a converted token starts with the same
/// characters as the token's punctuation prefix and ends with the same
/// characters as its punctuation suffix.
pub proof fn lemma_punctuation_round_trip(t: Seq<char>)
    ensures
        convert_token_spec(t).len() >= split_spec(t).0.len() + split_spec(t).2.len(),
        convert_token_spec(t).take(split_spec(t).0.len() as int) == t.take(
            split_spec(t).0.len() as int,
        ),
        convert_token_spec(t).skip(
            convert_token_spec(t).len() - split_spec(t).2.len(),
        ) == t.skip(t.len() - split_spec(t).2.len()),
{
    lemma_split_reconstructs(t);
    let prefix = split_spec(t).0;
    let suffix = split_spec(t).2;
    let r = convert_token_spec(t);
    assert(r.take(prefix.len() as int) =~= prefix);
    assert(t.take(prefix.len() as int) =~= prefix);
    assert(r.skip(r.len() - suffix.len()) =~= suffix);
    assert(t.skip(t.len() - suffix.len()) =~= suffix);
}

/// Appending one more token to a joined sequence appends a space and the
/// converted token, except when nothing stood before it.
proof fn lemma_convert_tokens_push(ts: Seq<Seq<char>>, t: Seq<char>)
    ensures
        ts.len() == 0 ==> convert_tokens_spec(ts.push(t)) == convert_token_spec(t),
        ts.len() > 0 ==> convert_tokens_spec(ts.push(t)) == convert_tokens_spec(ts) + seq![' ']
            + convert_token_spec(t),
    decreases ts.len(),
{
    if ts.len() == 0 {
        assert(ts.push(t)[0] == t);
    } else {
        assert(ts.push(t).drop_first() =~= ts.drop_first().push(t));
        lemma_convert_tokens_push(ts.drop_first(), t);
        assert(convert_tokens_spec(ts.push(t)) =~= convert_tokens_spec(ts) + seq![' ']
            + convert_token_spec(t));
    }
}

/// A scan that saw non-whitespace on `[0, i)` and stopped at `i` because
/// the string ended or whitespace stood there has found the first token's
/// length.
proof fn lemma_token_run_from_scan(s: Seq<char>, i: int)
    requires
        0 <= i <= s.len(),
        forall|j: int| 0 <= j < i ==> !is_space_char(s[j]),
        i < s.len() ==> is_space_char(s[i]),
    ensures
        token_run(s) == i,
    decreases i,
{
    if i > 0 {
        assert(!is_space_char(s[0]));
        assert forall|j: int| 0 <= j < i - 1 implies !is_space_char(s.drop_first()[j]) by {
            assert(s.drop_first()[j] == s[j + 1]);
        }
        if i - 1 < s.len() - 1 {
            assert(s.drop_first()[i - 1] == s[i]);
        }
        lemma_token_run_from_scan(s.drop_first(), i - 1);
    }
}

/// Converts one token: the core between the punctuation runs is
/// transposed, the punctuation itself is kept in place.
pub fn convert_word_with_punctuation(s: &str) -> (r: String)
    ensures
        r@ == convert_token_spec(s@),
{
    let (prefix, core, suffix) = split_punctuation(s);
    let mut r = prefix.to_owned();
    let converted = convert_word(core);
    r.append(converted.as_str());
    r.append(suffix);
    proof {
        assert(r@ =~= convert_token_spec(s@));
    }
    r
}

/// Converts a whole text: every whitespace-delimited token is converted,
/// and the results are joined with exactly one space between neighbours,
/// whatever whitespace stood between them in the input.
pub fn convert_string(s: &str) -> (r: String)
    ensures
        r@ == convert_string_spec(s@),
{
    let n = s.unicode_len();
    let mut out = String::new();
    let mut first: bool = true;
    let mut i: usize = 0;
    let ghost mut done: Seq<Seq<char>> = Seq::<Seq<char>>::empty();
    proof {
        assert(s@.skip(0) =~= s@);
        assert(done + tokens_spec(s@) =~= tokens_spec(s@));
    }
    while i < n
        invariant
            0 <= i <= n,
            n == s@.len(),
            tokens_spec(s@) == done + tokens_spec(s@.skip(i as int)),
            out@ == convert_tokens_spec(done),
            first <==> done.len() == 0,
        decreases n - i,
    {
        let c = s.get_char(i);
        if is_separator(c) {
            proof {
                assert(s@.skip(i as int).drop_first() =~= s@.skip(i as int + 1));
            }
            i = i + 1;
        } else {
            let mut j: usize = i + 1;
            while j < n && !is_separator(s.get_char(j))
                invariant
                    i < j <= n,
                    n == s@.len(),
                    forall|jj: int| i <= jj < j ==> !is_space_char(s@[jj]),
                decreases n - j,
            {
                j = j + 1;
            }
            let token = s.substring_char(i, j);
            proof {
                let u = s@.skip(i as int);
                assert forall|jj: int| 0 <= jj < j - i implies !is_space_char(u[jj]) by {
                    assert(u[jj] == s@[jj + i]);
                }
                if j < n {
                    assert(u[j - i] == s@[j as int]);
                }
                lemma_token_run_from_scan(u, j - i);
                assert(u.take(j - i) =~= token@);
                assert(u.skip(j - i) =~= s@.skip(j as int));
                assert(tokens_spec(u) == seq![token@] + tokens_spec(s@.skip(j as int)));
                assert(done + (seq![token@] + tokens_spec(s@.skip(j as int))) =~= done.push(
                    token@,
                ) + tokens_spec(s@.skip(j as int)));
                lemma_convert_tokens_push(done, token@);
            }
            let converted = convert_word_with_punctuation(token);
            if first {
                first = false;
            } else {
                out.append(" ");
                proof {
                    reveal_strlit(" ");
                    assert((" ")@ =~= seq![' ']);
                }
            }
            out.append(converted.as_str());
            proof {
                done = done.push(token@);
            }
            i = j;
        }
    }
    proof {
        assert(s@.skip(n as int) =~= Seq::<char>::empty());
        assert(done + tokens_spec(s@.skip(n as int)) =~= done);
    }
    out
}

/// Whitespace collapsing: any non-empty run of whitespace between two
/// tokens comes out as exactly one space, the same as a single space
/// would.
pub proof fn lemma_whitespace_collapses(t1: Seq<char>, sep: Seq<char>, t2: Seq<char>)
    requires
        t1.len() > 0,
        t2.len() > 0,
        sep.len() > 0,
        forall|i: int| 0 <= i < t1.len() ==> !is_space_char(t1[i]),
        forall|i: int| 0 <= i < t2.len() ==> !is_space_char(t2[i]),
        forall|i: int| 0 <= i < sep.len() ==> is_space_char(sep[i]),
    ensures
        convert_string_spec(t1 + sep + t2) == convert_token_spec(t1) + seq![' ']
            + convert_token_spec(t2),
        convert_string_spec(t1 + sep + t2) == convert_string_spec(t1 + seq![' '] + t2),
{
    lemma_tokens_of_two(t1, sep, t2);
    lemma_tokens_of_two(t1, seq![' '], t2);
    let ts = tokens_spec(t1 + sep + t2);
    assert(ts.len() == 2);
    assert(ts[0] == t1);
    assert(ts.drop_first() =~= seq![t2]);
    assert(ts.drop_first().len() == 1);
    assert(ts.drop_first()[0] == t2);
    assert(convert_tokens_spec(ts.drop_first()) == convert_token_spec(t2));
    assert(convert_tokens_spec(ts) == convert_token_spec(t1) + seq![' '] + convert_token_spec(t2));
}

/// Tokenizing a token, a whitespace run, and another token yields exactly
/// those two tokens.
proof fn lemma_tokens_of_two(t1: Seq<char>, sep: Seq<char>, t2: Seq<char>)
    requires
        t1.len() > 0,
        t2.len() > 0,
        sep.len() > 0,
        forall|i: int| 0 <= i < t1.len() ==> !is_space_char(t1[i]),
        forall|i: int| 0 <= i < t2.len() ==> !is_space_char(t2[i]),
        forall|i: int| 0 <= i < sep.len() ==> is_space_char(sep[i]),
    ensures
        tokens_spec(t1 + sep + t2) == seq![t1, t2],
{
    let s = t1 + sep + t2;
    assert forall|j: int| 0 <= j < t1.len() implies !is_space_char(s[j]) by {
        assert(s[j] == t1[j]);
    }
    assert(s[t1.len() as int] == sep[0]);
    lemma_token_run_from_scan(s, t1.len() as int);
    assert(!is_space_char(s[0]));
    assert(s.take(t1.len() as int) =~= t1);
    assert(s.skip(t1.len() as int) =~= sep + t2);
    lemma_tokens_skip_spaces(sep, t2);
    lemma_tokens_of_one(t2);
    assert(seq![t1] + seq![t2] =~= seq![t1, t2]);
}

/// Leading whitespace does not change the tokens.
proof fn lemma_tokens_skip_spaces(sep: Seq<char>, t: Seq<char>)
    requires
        forall|i: int| 0 <= i < sep.len() ==> is_space_char(sep[i]),
    ensures
        tokens_spec(sep + t) == tokens_spec(t),
    decreases sep.len(),
{
    if sep.len() == 0 {
        assert(sep + t =~= t);
    } else {
        assert((sep + t)[0] == sep[0]);
        assert((sep + t).drop_first() =~= sep.drop_first() + t);
        assert forall|i: int| 0 <= i < sep.drop_first().len() implies is_space_char(
            sep.drop_first()[i],
        ) by {
            assert(sep.drop_first()[i] == sep[i + 1]);
        }
        lemma_tokens_skip_spaces(sep.drop_first(), t);
    }
}

/// A whitespace-free, non-empty sequence is a single token.
proof fn lemma_tokens_of_one(t: Seq<char>)
    requires
        t.len() > 0,
        forall|i: int| 0 <= i < t.len() ==> !is_space_char(t[i]),
    ensures
        tokens_spec(t) == seq![t],
{
    lemma_token_run_from_scan(t, t.len() as int);
    assert(t.take(t.len() as int) =~= t);
    assert(t.skip(t.len() as int) =~= Seq::<char>::empty());
    assert(seq![t] + tokens_spec(Seq::<char>::empty()) =~= seq![t]);
}

} // verus!
