use vstd::prelude::*;

verus! {

/// The text of a sequence of tokens, each followed by exactly one space.
#[verifier::opaque]
pub open spec fn spaced(t: Seq<Seq<char>>) -> Seq<char>
    decreases t.len(),
{
    if t.len() == 0 {
        Seq::empty()
    } else {
        spaced(t.drop_last()) + t.last() + " "@
    }
}

/// The spaced text of two token sequences in a row is the text of the first
/// followed by the text of the second.
pub proof fn lemma_spaced_concat(a: Seq<Seq<char>>, b: Seq<Seq<char>>)
    ensures
        spaced(a + b) == spaced(a) + spaced(b),
    decreases b.len(),
{
    reveal(spaced);
    if b.len() == 0 {
        assert(a + b =~= a);
        assert(spaced(a) + spaced(b) =~= spaced(a));
    } else {
        lemma_spaced_concat(a, b.drop_last());
        assert((a + b).drop_last() =~= a + b.drop_last());
        assert(spaced(a) + spaced(b) =~= spaced(a) + spaced(b.drop_last()) + b.last() + " "@);
    }
}


/// Whether a character is white space, as `char::is_whitespace` decides.
pub open spec fn is_white_space(c: char) -> bool {
    let n = c as int;
    (0x9 <= n <= 0xd) || n == 0x20 || n == 0x85 || n == 0xa0 || n == 0x1680 || (0x2000 <= n
        <= 0x200a) || n == 0x2028 || n == 0x2029 || n == 0x202f || n == 0x205f || n == 0x3000
}

/// A text without white space.
pub open spec fn has_no_white_space(w: Seq<char>) -> bool {
    forall|i: int| 0 <= i < w.len() ==> !is_white_space(#[trigger] w[i])
}

/// A word: a non-empty text without white space.
pub open spec fn is_word(w: Seq<char>) -> bool {
    w.len() > 0 && has_no_white_space(w)
}

/// The words of `s`, the maximal runs of characters other than white space,
/// after a word `cur` that has begun before `s`.
pub open spec fn words_after(cur: Seq<char>, s: Seq<char>) -> Seq<Seq<char>>
    decreases s.len(),
{
    if s.len() == 0 {
        if cur.len() == 0 {
            seq![]
        } else {
            seq![cur]
        }
    } else if is_white_space(s[0]) {
        (if cur.len() == 0 {
            seq![]
        } else {
            seq![cur]
        }) + words_after(Seq::empty(), s.drop_first())
    } else {
        words_after(cur.push(s[0]), s.drop_first())
    }
}

/// The words of a text, split on white space as `str::split_whitespace` splits it.
pub open spec fn words(s: Seq<char>) -> Seq<Seq<char>> {
    words_after(Seq::empty(), s)
}

/// Characters without white space extend the word that has begun.
proof fn lemma_words_after_word(cur: Seq<char>, w: Seq<char>, r: Seq<char>)
    requires
        has_no_white_space(w),
    ensures
        words_after(cur, w + r) == words_after(cur + w, r),
    decreases w.len(),
{
    if w.len() == 0 {
        assert(w + r =~= r);
        assert(cur + w =~= cur);
    } else {
        assert((w + r)[0] == w[0]);
        assert((w + r).drop_first() =~= w.drop_first() + r);
        let w1 = w.drop_first();
        assert forall|i: int| 0 <= i < w1.len() implies !is_white_space(#[trigger] w1[i]) by {
            assert(w1[i] == w[i + 1]);
        }
        assert(has_no_white_space(w1));
        lemma_words_after_word(cur.push(w[0]), w1, r);
        assert(cur.push(w[0]) + w1 =~= cur + w);
    }
}

/// Splitting the spaced text of words on white space gives the words back.
pub proof fn lemma_words_of_spaced(t: Seq<Seq<char>>)
    requires
        forall|i: int| 0 <= i < t.len() ==> is_word(#[trigger] t[i]),
    ensures
        words(spaced(t)) == t,
    decreases t.len(),
{
    reveal(spaced);
    if t.len() == 0 {
        assert(words(spaced(t)) =~= t);
    } else {
        let rest = t.drop_first();
        assert forall|i: int| 0 <= i < rest.len() implies is_word(#[trigger] rest[i]) by {
            assert(rest[i] == t[i + 1]);
        }
        lemma_words_of_spaced(rest);
        assert(seq![t[0]] + rest =~= t);
        lemma_spaced_concat(seq![t[0]], rest);
        assert(seq![t[0]].drop_last() =~= Seq::<Seq<char>>::empty());
        assert(spaced(Seq::<Seq<char>>::empty()) =~= Seq::<char>::empty());
        assert(seq![t[0]].last() == t[0]);
        assert(spaced(seq![t[0]]) =~= t[0] + " "@);
        reveal_strlit(" ");
        let sp = spaced(rest);
        assert(t[0] + " "@ + sp =~= t[0] + (" "@ + sp));
        lemma_words_after_word(Seq::empty(), t[0], " "@ + sp);
        assert(Seq::<char>::empty() + t[0] =~= t[0]);
        assert((" "@ + sp).drop_first() =~= sp);
        assert(is_white_space((" "@ + sp)[0]));
    }
}

} // verus!
