//! The letter-transposition rule applied to a core word.

use vstd::prelude::*;
use vstd::string::StrSliceExecFns;
use vstd::string::StringExecFns;

use crate::chars::is_letter_char;
use crate::chars::is_upper_char;
use crate::chars::is_vowel;
use crate::chars::is_vowel_char;
use crate::chars::is_uppercase_letter;
use crate::chars::lower_char;
use crate::chars::push_char;
use crate::chars::to_lower_char;
use crate::chars::to_upper_char;
use crate::chars::upper_char;

verus! {

/// Uppercases the first character of a word; an empty word stays empty.
pub open spec fn capitalize_spec(s: Seq<char>) -> Seq<char> {
    if s.len() == 0 {
        s
    } else {
        seq![to_upper_char(s[0])] + s.drop_first()
    }
}

/// The transposition rule for a core word:
/// - an empty word stays empty;
/// - a word whose first character is a vowel gets "-hay" appended;
/// - a word whose first character is an uppercase consonant loses that
///   character, has its new first character uppercased, and ends in a
///   hyphen, the lowercased first character, and "ay";
/// - any other word loses its first character and ends in a hyphen, that
///   character, and "ay".
///
/// A single uppercase consonant follows the same rule with an empty
/// remainder, so it becomes a hyphen, its lowercase form, and "ay".
pub open spec fn transpose_spec(w: Seq<char>) -> Seq<char> {
    if w.len() == 0 {
        Seq::<char>::empty()
    } else if is_vowel_char(w[0]) {
        w + seq!['-', 'h', 'a', 'y']
    } else if is_upper_char(w[0]) {
        capitalize_spec(w.drop_first()) + seq!['-', to_lower_char(w[0]), 'a', 'y']
    } else {
        w.drop_first() + seq!['-', w[0], 'a', 'y']
    }
}

/// Number of occurrences of `c` in `s`.
pub open spec fn count_char(s: Seq<char>, c: char) -> nat
    decreases s.len(),
{
    if s.len() == 0 {
        0
    } else {
        ((if s[0] == c {
            1int
        } else {
            0int
        }) + count_char(s.drop_first(), c)) as nat
    }
}

proof fn lemma_count_char_concat(a: Seq<char>, b: Seq<char>, c: char)
    ensures
        count_char(a + b, c) == count_char(a, c) + count_char(b, c),
    decreases a.len(),
{
    if a.len() == 0 {
        assert(a + b =~= b);
    } else {
        assert((a + b).drop_first() =~= a.drop_first() + b);
        lemma_count_char_concat(a.drop_first(), b, c);
    }
}

proof fn lemma_count_char_absent(s: Seq<char>, c: char)
    requires
        forall|i: int| 0 <= i < s.len() ==> s[i] != c,
    ensures
        count_char(s, c) == 0,
    decreases s.len(),
{
    if s.len() > 0 {
        lemma_count_char_absent(s.drop_first(), c);
    }
}

/// A word that starts with a vowel is kept whole and gets "-hay" appended.
pub proof fn lemma_vowel_transpose(w: Seq<char>)
    requires
        w.len() > 0,
        is_vowel_char(w[0]),
    ensures
        transpose_spec(w) == w + seq!['-', 'h', 'a', 'y'],
{
}

/// A word of at least two ASCII letters whose first letter is a consonant
/// is transposed into a word that ends in "ay" and holds exactly one
/// hyphen.
pub proof fn lemma_consonant_transpose_shape(w: Seq<char>)
    requires
        w.len() >= 2,
        forall|i: int| 0 <= i < w.len() ==> is_letter_char(w[i]),
        !is_vowel_char(w[0]),
    ensures
        transpose_spec(w).len() >= 2,
        transpose_spec(w)[transpose_spec(w).len() - 2] == 'a',
        transpose_spec(w)[transpose_spec(w).len() - 1] == 'y',
        count_char(transpose_spec(w), '-') == 1,
{
    let rest = w.drop_first();
    assert(is_letter_char(w[0]));
    assert(is_letter_char(rest[0]));
    if is_upper_char(w[0]) {
        let head = capitalize_spec(rest);
        let tail = seq!['-', to_lower_char(w[0]), 'a', 'y'];
        assert forall|i: int| 0 <= i < head.len() implies head[i] != '-' by {
            if i == 0 {
                assert(is_letter_char(to_upper_char(rest[0])));
            } else {
                assert(head[i] == rest.drop_first()[i - 1]);
                assert(rest.drop_first()[i - 1] == w[i + 1]);
            }
        }
        lemma_count_char_absent(head, '-');
        assert(is_letter_char(to_lower_char(w[0])));
        lemma_count_char_absent(tail.drop_first(), '-');
        assert(count_char(tail, '-') == 1);
        lemma_count_char_concat(head, tail, '-');
        assert(transpose_spec(w)[transpose_spec(w).len() - 2] == tail[2]);
        assert(transpose_spec(w)[transpose_spec(w).len() - 1] == tail[3]);
    } else {
        let tail = seq!['-', w[0], 'a', 'y'];
        assert forall|i: int| 0 <= i < rest.len() implies rest[i] != '-' by {
            assert(rest[i] == w[i + 1]);
        }
        lemma_count_char_absent(rest, '-');
        lemma_count_char_absent(tail.drop_first(), '-');
        assert(count_char(tail, '-') == 1);
        lemma_count_char_concat(rest, tail, '-');
        assert(transpose_spec(w)[transpose_spec(w).len() - 2] == tail[2]);
        assert(transpose_spec(w)[transpose_spec(w).len() - 1] == tail[3]);
    }
}

/// Applies the transposition rule to a core word.
///
/// A word of a single uppercase consonant is handled by the general rule
/// with an empty remainder and yields a hyphen, the lowercased letter, and
/// "ay"; nothing makes this function fail.
pub fn convert_word(word: &str) -> (r: String)
    ensures
        r@ == transpose_spec(word@),
{
    let n = word.unicode_len();
    if n == 0 {
        let r = String::new();
        proof {
            assert(r@ =~= transpose_spec(word@));
        }
        return r;
    }
    let c = word.get_char(0);
    if is_vowel(c) {
        let mut r = word.to_owned();
        r.append("-hay");
        proof {
            reveal_strlit("-hay");
            assert(("-hay")@ =~= seq!['-', 'h', 'a', 'y']);
            assert(r@ =~= transpose_spec(word@));
        }
        r
    } else if is_uppercase_letter(c) {
        let mut r = String::new();
        if n >= 2 {
            push_char(&mut r, upper_char(word.get_char(1)));
            let tail = word.substring_char(2, n);
            r.append(tail);
        }
        r.append("-");
        push_char(&mut r, lower_char(c));
        r.append("ay");
        proof {
            reveal_strlit("-");
            reveal_strlit("ay");
            assert(("-")@ =~= seq!['-']);
            assert(("ay")@ =~= seq!['a', 'y']);
            assert(r@ =~= transpose_spec(word@));
        }
        r
    } else {
        let mut r = String::new();
        let tail = word.substring_char(1, n);
        r.append(tail);
        r.append("-");
        push_char(&mut r, c);
        r.append("ay");
        proof {
            reveal_strlit("-");
            reveal_strlit("ay");
            assert(("-")@ =~= seq!['-']);
            assert(("ay")@ =~= seq!['a', 'y']);
            assert(r@ =~= transpose_spec(word@));
        }
        r
    }
}

} // verus!
