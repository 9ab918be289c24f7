//! Laws of trimming and of the exit keyword.

use vstd::prelude::*;
use crate::text::{exit_keyword, exit_line, trim_back, trim_front, trimmed, white_space};

verus! {

/// Cutting a run of white space that ends at the first other character (or
/// at the end of `s`) is what `trim_front` does.
pub proof fn lemma_trim_front_cuts(s: Seq<char>, a: int)
    requires
        0 <= a <= s.len(),
        forall|i: int| 0 <= i < a ==> white_space(#[trigger] s[i]),
        a < s.len() ==> !white_space(s[a]),
    ensures
        trim_front(s) == s.skip(a),
    decreases a,
{
    if a > 0 {
        let rest = s.drop_first();
        assert forall|i: int| 0 <= i < a - 1 implies white_space(#[trigger] rest[i]) by {
            assert(rest[i] == s[i + 1]);
        }
        lemma_trim_front_cuts(rest, a - 1);
    }
}

/// Cutting a run of white space that starts right after the last other
/// character (or at the start of `s`) is what `trim_back` does.
pub proof fn lemma_trim_back_cuts(s: Seq<char>, b: int)
    requires
        0 <= b <= s.len(),
        forall|i: int| b <= i < s.len() ==> white_space(#[trigger] s[i]),
        0 < b ==> !white_space(s[b - 1]),
    ensures
        trim_back(s) == s.take(b),
    decreases s.len() - b,
{
    if b < s.len() {
        lemma_trim_back_cuts(s.drop_last(), b);
    }
}

/// What `trim_front` returns is the back part of `s`, and does not start
/// with white space.
pub proof fn lemma_trim_front_shape(s: Seq<char>)
    ensures
        trim_front(s).len() <= s.len(),
        trim_front(s) == s.skip(s.len() - trim_front(s).len()),
        trim_front(s).len() > 0 ==> !white_space(trim_front(s).first()),
        forall|i: int| 0 <= i < s.len() - trim_front(s).len() ==> white_space(#[trigger] s[i]),
    decreases s.len(),
{
    if s.len() > 0 && white_space(s.first()) {
        let rest = s.drop_first();
        lemma_trim_front_shape(rest);
        assert forall|i: int| 0 <= i < s.len() - trim_front(s).len() implies white_space(
            #[trigger] s[i],
        ) by {
            if i > 0 {
                assert(s[i] == rest[i - 1]);
            }
        }
    }
}

/// What `trim_back` returns is the front part of `s`, and does not end with
/// white space.
pub proof fn lemma_trim_back_shape(s: Seq<char>)
    ensures
        trim_back(s).len() <= s.len(),
        trim_back(s) == s.take(trim_back(s).len() as int),
        trim_back(s).len() > 0 ==> !white_space(trim_back(s).last()),
        forall|i: int| trim_back(s).len() <= i < s.len() ==> white_space(#[trigger] s[i]),
    decreases s.len(),
{
    if s.len() > 0 && white_space(s.last()) {
        let rest = s.drop_last();
        lemma_trim_back_shape(rest);
        let keep = trim_back(rest).len() as int;
        assert forall|i: int| keep <= i < s.len() implies white_space(#[trigger] s[i]) by {
            if i < rest.len() {
                assert(s[i] == rest[i]);
            }
        }
    }
}

/// A trimmed text neither starts nor ends with white space.
pub proof fn lemma_trimmed_ends(s: Seq<char>)
    ensures
        trimmed(s).len() > 0 ==> !white_space(trimmed(s).first()) && !white_space(
            trimmed(s).last(),
        ),
{
    lemma_trim_front_shape(s);
    lemma_trim_back_shape(trim_front(s));
}

/// Trimming a trimmed text changes nothing.
pub proof fn lemma_trimmed_twice(s: Seq<char>)
    ensures
        trimmed(trimmed(s)) == trimmed(s),
{
    let t = trimmed(s);
    lemma_trimmed_ends(s);
    lemma_trim_front_cuts(t, 0);
    lemma_trim_back_cuts(t, t.len() as int);
}

/// A text between two runs of white space, which itself neither starts nor
/// ends with white space, is what trimming the whole gives.
pub proof fn lemma_trimmed_of_padded(left: Seq<char>, core: Seq<char>, right: Seq<char>)
    requires
        forall|i: int| 0 <= i < left.len() ==> white_space(#[trigger] left[i]),
        forall|i: int| 0 <= i < right.len() ==> white_space(#[trigger] right[i]),
        core.len() > 0 ==> !white_space(core.first()) && !white_space(core.last()),
    ensures
        trimmed(left + core + right) == core,
{
    let s = left + core + right;
    if core.len() > 0 {
        lemma_trim_front_cuts(s, left.len() as int);
        lemma_trim_back_cuts(s.skip(left.len() as int), core.len() as int);
    } else {
        lemma_trim_front_cuts(s, s.len() as int);
    }
}

/// The exit keyword, in any letter case and between any white space, makes
/// an exit line.
pub proof fn lemma_padded_keyword_is_exit_line(left: Seq<char>, word: Seq<char>, right: Seq<char>)
    requires
        forall|i: int| 0 <= i < left.len() ==> white_space(#[trigger] left[i]),
        forall|i: int| 0 <= i < right.len() ==> white_space(#[trigger] right[i]),
        exit_keyword(word),
    ensures
        exit_line(left + word + right),
{
    lemma_trimmed_of_padded(left, word, right);
}

} // verus!
