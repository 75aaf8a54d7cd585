//! Splitting a line of input into words.
//!
//! Words are the maximal runs of characters that are not white space. There
//! is no quoting and no escaping: white space always separates.

use crate::text::{chars_of, joined};
use vstd::prelude::*;

verus! {

/// White space as Unicode defines it: the characters that separate words.
pub open spec fn is_blank(c: char) -> bool {
    let u = c as u32;
    ||| 0x09 <= u <= 0x0D
    ||| u == 0x20
    ||| u == 0x85
    ||| u == 0xA0
    ||| u == 0x1680
    ||| 0x2000 <= u <= 0x200A
    ||| u == 0x2028
    ||| u == 0x2029
    ||| u == 0x202F
    ||| u == 0x205F
    ||| u == 0x3000
}

/// A word: at least one character, none of them white space.
pub open spec fn is_word(t: Seq<char>) -> bool {
    &&& t.len() > 0
    &&& forall|i: int| 0 <= i < t.len() ==> !is_blank(#[trigger] t[i])
}

/// Nothing but white space (the empty sequence too).
pub open spec fn all_blank(s: Seq<char>) -> bool {
    forall|i: int| 0 <= i < s.len() ==> is_blank(#[trigger] s[i])
}

/// How many characters stand before the first white space of `s`.
pub open spec fn word_len(s: Seq<char>) -> nat
    decreases s.len(),
{
    if s.len() > 0 && !is_blank(s[0]) {
        1 + word_len(s.drop_first())
    } else {
        0
    }
}

/// The words of `s`, from left to right.
pub open spec fn tokens_of(s: Seq<char>) -> Seq<Seq<char>>
    decreases s.len(),
    via tokens_of_decreases
{
    if s.len() == 0 {
        Seq::empty()
    } else if is_blank(s[0]) {
        tokens_of(s.drop_first())
    } else {
        seq![s.take(word_len(s) as int)] + tokens_of(s.skip(word_len(s) as int))
    }
}

#[via_fn]
proof fn tokens_of_decreases(s: Seq<char>) {
    lemma_word_len(s);
}

/// `word_len(s)` is the place of the first white space of `s`, or the length
/// of `s` where there is none.
pub proof fn lemma_word_len(s: Seq<char>)
    ensures
        word_len(s) <= s.len(),
        forall|i: int| 0 <= i < word_len(s) ==> !is_blank(#[trigger] s[i]),
        word_len(s) < s.len() ==> is_blank(s[word_len(s) as int]),
        s.len() > 0 && !is_blank(s[0]) ==> word_len(s) >= 1,
    decreases s.len(),
{
    if s.len() > 0 && !is_blank(s[0]) {
        let rest = s.drop_first();
        lemma_word_len(rest);
        assert forall|i: int| 0 <= i < word_len(s) implies !is_blank(#[trigger] s[i]) by {
            if i > 0 {
                assert(s[i] == rest[i - 1]);
            }
        }
    }
}

/// A run of `k` characters without white space, ending at the end of `s` or
/// before a white space, is the first word's extent.
pub proof fn lemma_word_len_is(s: Seq<char>, k: int)
    requires
        0 <= k <= s.len(),
        forall|i: int| 0 <= i < k ==> !is_blank(#[trigger] s[i]),
        k < s.len() ==> is_blank(s[k]),
    ensures
        word_len(s) == k,
    decreases k,
{
    if k > 0 {
        let rest = s.drop_first();
        assert forall|i: int| 0 <= i < k - 1 implies !is_blank(#[trigger] rest[i]) by {
            assert(rest[i] == s[i + 1]);
        }
        lemma_word_len_is(rest, k - 1);
    }
}

/// Every word that `tokens_of` gives has at least one character and holds no
/// white space.
pub proof fn lemma_tokens_are_words(s: Seq<char>)
    ensures
        forall|i: int| 0 <= i < tokens_of(s).len() ==> is_word(#[trigger] tokens_of(s)[i]),
    decreases s.len(),
{
    if s.len() == 0 {
        assert(tokens_of(s).len() == 0);
    } else if is_blank(s[0]) {
        lemma_tokens_are_words(s.drop_first());
        assert(tokens_of(s) == tokens_of(s.drop_first()));
    } else {
        lemma_word_len(s);
        let n = word_len(s) as int;
        lemma_tokens_are_words(s.skip(n));
        let first = s.take(n);
        assert(is_word(first)) by {
            assert forall|i: int| 0 <= i < first.len() implies !is_blank(#[trigger] first[i]) by {
                assert(first[i] == s[i]);
            }
        }
        assert forall|i: int| 0 <= i < tokens_of(s).len() implies is_word(
            #[trigger] tokens_of(s)[i],
        ) by {
            if i > 0 {
                assert(tokens_of(s)[i] == tokens_of(s.skip(n))[i - 1]);
            } else {
                assert(tokens_of(s)[0] == first);
            }
        }
    }
}

/// Where two pieces meet at white space, or one of them is empty, the words
/// of the whole are the words of the first followed by those of the second.
pub proof fn lemma_tokens_concat(a: Seq<char>, b: Seq<char>)
    requires
        a.len() == 0 || b.len() == 0 || is_blank(a.last()) || is_blank(b[0]),
    ensures
        tokens_of(a + b) == tokens_of(a) + tokens_of(b),
    decreases a.len(),
{
    let whole = a + b;
    if a.len() == 0 {
        assert(whole =~= b);
        assert(tokens_of(a) + tokens_of(b) =~= tokens_of(b));
    } else if is_blank(a[0]) {
        let rest = a.drop_first();
        assert(whole.drop_first() =~= rest + b);
        if rest.len() > 0 {
            assert(rest.last() == a.last());
        }
        lemma_tokens_concat(rest, b);
    } else {
        lemma_word_len(a);
        let n = word_len(a) as int;
        assert(word_len(whole) == n) by {
            assert forall|i: int| 0 <= i < n implies !is_blank(#[trigger] whole[i]) by {
                assert(whole[i] == a[i]);
            }
            if n < a.len() {
                assert(whole[n] == a[n]);
            } else if b.len() > 0 {
                assert(!is_blank(a[a.len() - 1]));
                assert(whole[n] == b[0]);
            }
            lemma_word_len_is(whole, n);
        }
        let rest = a.skip(n);
        assert(whole.take(n) =~= a.take(n));
        assert(whole.skip(n) =~= rest + b);
        if rest.len() > 0 {
            assert(rest.last() == a.last());
        }
        lemma_tokens_concat(rest, b);
        assert(tokens_of(whole) =~= tokens_of(a) + tokens_of(b));
    }
}

/// White space alone holds no word.
pub proof fn lemma_tokens_of_blanks(w: Seq<char>)
    requires
        all_blank(w),
    ensures
        tokens_of(w) == Seq::<Seq<char>>::empty(),
    decreases w.len(),
{
    if w.len() > 0 {
        let rest = w.drop_first();
        assert forall|i: int| 0 <= i < rest.len() implies is_blank(#[trigger] rest[i]) by {
            assert(rest[i] == w[i + 1]);
        }
        lemma_tokens_of_blanks(rest);
    }
}

/// The words do not depend on how much white space separates them, nor on
/// which: between any two pieces, one non-empty run of white space may stand
/// for another.
pub proof fn lemma_tokens_ignore_spacing(
    a: Seq<char>,
    gap: Seq<char>,
    other_gap: Seq<char>,
    b: Seq<char>,
)
    requires
        all_blank(gap),
        all_blank(other_gap),
        gap.len() > 0,
        other_gap.len() > 0,
    ensures
        tokens_of(a + gap + b) == tokens_of(a + other_gap + b),
        tokens_of(a + gap + b) == tokens_of(a) + tokens_of(b),
{
    lemma_tokens_split_at_gap(a, gap, b);
    lemma_tokens_split_at_gap(a, other_gap, b);
}

proof fn lemma_tokens_split_at_gap(a: Seq<char>, gap: Seq<char>, b: Seq<char>)
    requires
        all_blank(gap),
        gap.len() > 0,
    ensures
        tokens_of(a + gap + b) == tokens_of(a) + tokens_of(b),
{
    assert(is_blank(gap[0]));
    assert(is_blank(gap.last()));
    assert((gap + b)[0] == gap[0]);
    assert(a + gap + b =~= a + (gap + b));
    lemma_tokens_concat(a, gap + b);
    lemma_tokens_concat(gap, b);
    lemma_tokens_of_blanks(gap);
    assert(tokens_of(gap) + tokens_of(b) =~= tokens_of(b));
}

/// A word by itself is its own only word.
pub proof fn lemma_tokens_of_word(w: Seq<char>)
    requires
        is_word(w),
    ensures
        tokens_of(w) == seq![w],
{
    assert(!is_blank(w[0]));
    lemma_word_len_is(w, w.len() as int);
    let end = w.skip(w.len() as int);
    assert(w.take(w.len() as int) =~= w);
    assert(end.len() == 0);
    assert(tokens_of(end) =~= Seq::<Seq<char>>::empty());
    assert(tokens_of(w) =~= seq![w]);
}

/// Words joined by white space split into the same words again.
pub proof fn lemma_tokens_of_joined(words: Seq<Seq<char>>, sep: Seq<char>)
    requires
        forall|i: int| 0 <= i < words.len() ==> is_word(#[trigger] words[i]),
        all_blank(sep),
        sep.len() > 0,
    ensures
        tokens_of(joined(words, sep)) == words,
    decreases words.len(),
{
    if words.len() == 0 {
        assert(tokens_of(joined(words, sep)) =~= words);
    } else if words.len() == 1 {
        lemma_tokens_of_word(words[0]);
        assert(seq![words[0]] =~= words);
    } else {
        let rest = words.drop_first();
        assert forall|i: int| 0 <= i < rest.len() implies is_word(#[trigger] rest[i]) by {
            assert(rest[i] == words[i + 1]);
        }
        lemma_tokens_of_joined(rest, sep);
        lemma_tokens_split_at_gap(words[0], sep, joined(rest, sep));
        lemma_tokens_of_word(words[0]);
        assert(seq![words[0]] + rest =~= words);
    }
}

/// `words` written one after another, each with its gap before it:
/// `gaps[i]` stands before `words[i]`.
pub open spec fn spaced(words: Seq<Seq<char>>, gaps: Seq<Seq<char>>) -> Seq<char>
    decreases words.len(),
{
    if words.len() == 0 {
        Seq::empty()
    } else {
        gaps[0] + words[0] + spaced(words.drop_first(), gaps.drop_first())
    }
}

/// However much white space separates words, and whatever white space
/// stands before the first and after the last, the line splits into exactly
/// these words.
pub proof fn lemma_tokens_of_spaced(words: Seq<Seq<char>>, gaps: Seq<Seq<char>>, tail: Seq<char>)
    requires
        gaps.len() == words.len(),
        forall|i: int| 0 <= i < words.len() ==> is_word(#[trigger] words[i]),
        forall|i: int| 0 <= i < gaps.len() ==> all_blank(#[trigger] gaps[i]),
        forall|i: int| 1 <= i < gaps.len() ==> (#[trigger] gaps[i]).len() > 0,
        all_blank(tail),
    ensures
        tokens_of(spaced(words, gaps) + tail) == words,
    decreases words.len(),
{
    if words.len() == 0 {
        assert(spaced(words, gaps) + tail =~= tail);
        lemma_tokens_of_blanks(tail);
        assert(words =~= Seq::<Seq<char>>::empty());
    } else {
        let rest_words = words.drop_first();
        let rest_gaps = gaps.drop_first();
        let rest = spaced(rest_words, rest_gaps) + tail;
        assert forall|i: int| 0 <= i < rest_words.len() implies is_word(
            #[trigger] rest_words[i],
        ) by {
            assert(rest_words[i] == words[i + 1]);
        }
        assert forall|i: int| 0 <= i < rest_gaps.len() implies all_blank(#[trigger] rest_gaps[i])
            && rest_gaps[i].len() > 0 by {
            assert(rest_gaps[i] == gaps[i + 1]);
        }
        lemma_tokens_of_spaced(rest_words, rest_gaps, tail);
        assert(rest.len() == 0 || is_blank(rest[0])) by {
            if rest_words.len() > 0 {
                assert(rest_gaps[0].len() > 0);
                assert(rest[0] == rest_gaps[0][0]);
            } else {
                assert(rest =~= tail);
            }
        }
        let line = spaced(words, gaps) + tail;
        assert(line =~= gaps[0] + (words[0] + rest));
        assert(words[0].len() > 0 && !is_blank(words[0][0]));
        assert((words[0] + rest)[0] == words[0][0]);
        if gaps[0].len() > 0 {
            assert(is_blank(gaps[0].last()));
            lemma_tokens_concat(gaps[0], words[0] + rest);
            lemma_tokens_of_blanks(gaps[0]);
        } else {
            assert(gaps[0] + (words[0] + rest) =~= words[0] + rest);
        }
        assert(tokens_of(line) =~= tokens_of(words[0] + rest));
        lemma_tokens_concat(words[0], rest);
        lemma_tokens_of_word(words[0]);
        assert(seq![words[0]] + rest_words =~= words);
    }
}

/// Whether `c` separates words.
pub fn is_whitespace(c: char) -> (blank: bool)
    ensures
        blank == is_blank(c),
{
    let u: u32 = c as u32;
    (0x09 <= u && u <= 0x0D) || u == 0x20 || u == 0x85 || u == 0xA0 || u == 0x1680 || (0x2000 <= u
        && u <= 0x200A) || u == 0x2028 || u == 0x2029 || u == 0x202F || u == 0x205F || u == 0x3000
}

/// Splits `line` into its words, in order. A line of white space alone, or
/// an empty one, has none.
pub fn tokenize(line: &str) -> (tokens: Vec<String>)
    ensures
        tokens.deep_view() == tokens_of(line@),
{
    let chars = chars_of(line);
    let n = chars.len();
    let mut tokens: Vec<String> = Vec::new();
    let mut i: usize = 0;
    assert(line@.skip(0) =~= line@);
    assert(tokens.deep_view() + tokens_of(line@) =~= tokens_of(line@));
    while i < n
        invariant
            i <= n,
            n == chars.len(),
            chars@ == line@,
            tokens_of(line@) == tokens.deep_view() + tokens_of(line@.skip(i as int)),
        decreases n - i,
    {
        let ghost rest = line@.skip(i as int);
        assert(rest[0] == line@[i as int]);
        if is_whitespace(chars[i]) {
            assert(rest.drop_first() =~= line@.skip(i + 1));
            i += 1;
        } else {
            let start = i;
            while i < n && !is_whitespace(chars[i])
                invariant
                    start <= i <= n,
                    n == chars.len(),
                    forall|k: int| start <= k < i ==> !is_blank(#[trigger] chars@[k]),
                decreases n - i,
            {
                i += 1;
            }
            let word = line.substring_char(start, i).to_owned();
            proof {
                let k = i - start;
                assert forall|j: int| 0 <= j < k implies !is_blank(#[trigger] rest[j]) by {
                    assert(rest[j] == chars@[start + j]);
                }
                if k < rest.len() {
                    assert(rest[k] == chars@[i as int]);
                }
                lemma_word_len_is(rest, k);
                assert(rest.take(k) =~= word@);
                assert(rest.skip(k) =~= line@.skip(i as int));
                assert(tokens.deep_view().push(word@) =~= tokens.deep_view() + seq![word@]);
            }
            let ghost before = tokens.deep_view();
            tokens.push(word);
            assert(tokens.deep_view() =~= before.push(word@));
        }
    }
    assert(line@.skip(n as int).len() == 0);
    assert(tokens.deep_view() + tokens_of(line@.skip(n as int)) =~= tokens.deep_view());
    tokens
}

} // verus!
