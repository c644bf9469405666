//! Whitespace-delimited words of a text.
//!
//! Chunking partitions a message body into windows of words. This module
//! defines the word sequence of a text, a verified splitter and joiner, and
//! the laws that connect them: joining words back with single spaces yields a
//! text with the same word sequence.

use vstd::prelude::*;

verus! {

/// The whitespace characters that delimit words.
pub open spec fn is_space_char(c: char) -> bool {
    c == ' ' || c == '\t' || c == '\n' || c == '\r' || c == '\u{c}'
}

/// The longest prefix of `s` that holds no whitespace character.
pub open spec fn take_word(s: Seq<char>) -> Seq<char>
    decreases s.len(),
{
    if s.len() == 0 || is_space_char(s[0]) {
        Seq::empty()
    } else {
        seq![s[0]] + take_word(s.drop_first())
    }
}

/// The whitespace-delimited words of `s`, in text order: the maximal runs of
/// non-whitespace characters.
pub open spec fn words_of(s: Seq<char>) -> Seq<Seq<char>>
    decreases s.len(),
    via words_of_decreases
{
    if s.len() == 0 {
        Seq::empty()
    } else if is_space_char(s[0]) {
        words_of(s.drop_first())
    } else {
        seq![take_word(s)] + words_of(s.skip(take_word(s).len() as int))
    }
}

#[via_fn]
proof fn words_of_decreases(s: Seq<char>) {
    if s.len() > 0 && !is_space_char(s[0]) {
        lemma_take_word_non_space(s);
    }
}

/// A word as the splitter produces it: non-empty and free of whitespace.
pub open spec fn wordlike(w: Seq<char>) -> bool {
    w.len() > 0 && (forall|k: int| 0 <= k < w.len() ==> !is_space_char(w[k]))
}

/// The words joined by single spaces.
pub open spec fn space_join(ws: Seq<Seq<char>>) -> Seq<char>
    decreases ws.len(),
{
    if ws.len() == 0 {
        Seq::empty()
    } else if ws.len() == 1 {
        ws[0]
    } else {
        ws[0] + seq![' '] + space_join(ws.drop_first())
    }
}

/// The views of a sequence of owned strings.
pub open spec fn views_of(ws: Seq<String>) -> Seq<Seq<char>> {
    ws.map_values(|w: String| w@)
}

/// `take_word` is exactly the prefix up to the first whitespace character.
pub proof fn lemma_take_word_is_prefix(s: Seq<char>, m: int)
    requires
        0 <= m <= s.len(),
        forall|k: int| 0 <= k < m ==> !is_space_char(s[k]),
        m == s.len() || is_space_char(s[m]),
    ensures
        take_word(s) == s.take(m),
    decreases m,
{
    if m == 0 {
        assert(take_word(s) =~= s.take(0));
    } else {
        lemma_take_word_is_prefix(s.drop_first(), m - 1);
        assert(take_word(s) =~= s.take(m)) by {
            assert(s.drop_first().take(m - 1) =~= s.take(m).drop_first());
        }
    }
}

/// Every word of a text is non-empty and free of whitespace.
pub proof fn lemma_words_wordlike(s: Seq<char>)
    ensures
        forall|i: int| 0 <= i < words_of(s).len() ==> wordlike(#[trigger] words_of(s)[i]),
    decreases s.len(),
{
    if s.len() == 0 {
    } else if is_space_char(s[0]) {
        lemma_words_wordlike(s.drop_first());
        assert forall|i: int| 0 <= i < words_of(s).len() implies wordlike(
            #[trigger] words_of(s)[i],
        ) by {
            assert(words_of(s)[i] == words_of(s.drop_first())[i]);
        }
    } else {
        let w = take_word(s);
        lemma_take_word_non_space(s);
        let rest = s.skip(w.len() as int);
        lemma_words_wordlike(rest);
        assert forall|i: int| 0 <= i < words_of(s).len() implies wordlike(
            #[trigger] words_of(s)[i],
        ) by {
            assert(words_of(s) == seq![w] + words_of(rest));
            if i == 0 {
                assert(words_of(s)[0] == w);
            } else {
                assert(words_of(s)[i] == words_of(rest)[i - 1]);
            }
        }
    }
}

/// When the text starts with a non-space character, `take_word` is non-empty,
/// within bounds, and whitespace-free.
pub proof fn lemma_take_word_non_space(s: Seq<char>)
    requires
        s.len() > 0,
        !is_space_char(s[0]),
    ensures
        1 <= take_word(s).len() <= s.len(),
        wordlike(take_word(s)),
        take_word(s) == s.take(take_word(s).len() as int),
        take_word(s).len() < s.len() ==> is_space_char(s[take_word(s).len() as int]),
    decreases s.len(),
{
    if s.len() == 1 || is_space_char(s[1]) {
        lemma_take_word_is_prefix(s, 1);
    } else {
        lemma_take_word_non_space(s.drop_first());
        let w = take_word(s);
        let wd = take_word(s.drop_first());
        assert(w =~= seq![s[0]] + wd);
        assert(w =~= s.take(w.len() as int)) by {
            assert(wd =~= s.drop_first().take(wd.len() as int));
        }
    }
}

/// Words of a text that begins with a complete word: the word, then the words
/// of the rest.
pub proof fn lemma_words_of_word_prefix(w: Seq<char>, rest: Seq<char>)
    requires
        wordlike(w),
        rest.len() == 0 || is_space_char(rest[0]),
    ensures
        words_of(w + rest) == seq![w] + words_of(rest),
{
    let s = w + rest;
    assert(s[0] == w[0]);
    lemma_take_word_is_prefix(s, w.len() as int);
    assert(s.take(w.len() as int) =~= w);
    assert(s.skip(w.len() as int) =~= rest);
    assert(words_of(s) =~= seq![w] + words_of(rest));
}

/// Splitting a single-space join recovers the words exactly.
pub proof fn lemma_words_of_space_join(ws: Seq<Seq<char>>)
    requires
        forall|i: int| 0 <= i < ws.len() ==> wordlike(#[trigger] ws[i]),
    ensures
        words_of(space_join(ws)) == ws,
    decreases ws.len(),
{
    if ws.len() == 0 {
        assert(words_of(space_join(ws)) =~= ws);
    } else if ws.len() == 1 {
        lemma_words_of_word_prefix(ws[0], Seq::empty());
        assert(ws[0] + Seq::<char>::empty() =~= ws[0]);
        assert(seq![ws[0]] + words_of(Seq::<char>::empty()) =~= ws);
    } else {
        let rest = seq![' '] + space_join(ws.drop_first());
        assert(space_join(ws) =~= ws[0] + rest);
        lemma_words_of_word_prefix(ws[0], rest);
        lemma_words_of_space_join(ws.drop_first());
        assert(rest.drop_first() =~= space_join(ws.drop_first()));
        assert(words_of(rest) == words_of(space_join(ws.drop_first())));
        assert(seq![ws[0]] + ws.drop_first() =~= ws);
    }
}

/// Appending one more word to a join adds one separating space and the word.
pub proof fn lemma_space_join_push(ws: Seq<Seq<char>>, w: Seq<char>)
    ensures
        ws.len() == 0 ==> space_join(ws.push(w)) == w,
        ws.len() > 0 ==> space_join(ws.push(w)) == space_join(ws) + seq![' '] + w,
    decreases ws.len(),
{
    if ws.len() == 0 {
        assert(space_join(ws.push(w)) == ws.push(w)[0]);
        assert(ws.push(w)[0] == w);
    } else if ws.len() == 1 {
        let p = ws.push(w);
        assert(p.len() == 2);
        assert(p[0] == ws[0]);
        assert(p.drop_first() =~= seq![w]);
        assert(space_join(seq![w]) == w);
        assert(space_join(p) == p[0] + seq![' '] + space_join(p.drop_first()));
    } else {
        lemma_space_join_push(ws.drop_first(), w);
        assert(ws.push(w).drop_first() =~= ws.drop_first().push(w));
        assert(space_join(ws.push(w)) == ws[0] + seq![' '] + space_join(ws.drop_first().push(w)));
        assert(ws[0] + seq![' '] + (space_join(ws.drop_first()) + seq![' '] + w) =~= (ws[0]
            + seq![' '] + space_join(ws.drop_first())) + seq![' '] + w);
    }
}

/// Joining two word sequences one after the other equals joining the whole.
pub proof fn lemma_space_join_concat(a: Seq<Seq<char>>, b: Seq<Seq<char>>)
    requires
        a.len() > 0,
        b.len() > 0,
    ensures
        space_join(a + b) == space_join(a) + seq![' '] + space_join(b),
    decreases a.len(),
{
    if a.len() == 1 {
        let s = a + b;
        assert(s.len() >= 2);
        assert(s[0] == a[0]);
        assert(s.drop_first() =~= b);
        assert(space_join(s) == a[0] + seq![' '] + space_join(b));
    } else {
        lemma_space_join_concat(a.drop_first(), b);
        let s = a + b;
        assert(s[0] == a[0]);
        assert(s.drop_first() =~= a.drop_first() + b);
        assert(space_join(s) == a[0] + seq![' '] + space_join(a.drop_first() + b));
        assert(a[0] + seq![' '] + (space_join(a.drop_first()) + seq![' '] + space_join(b)) =~= (
        a[0] + seq![' '] + space_join(a.drop_first())) + seq![' '] + space_join(b));
    }
}

/// A join of at least one word is at least as long as its first word.
pub proof fn lemma_space_join_len(ws: Seq<Seq<char>>)
    requires
        ws.len() > 0,
    ensures
        space_join(ws).len() >= ws[0].len(),
{
}

/// Whether `c` counts as whitespace for word splitting.
pub fn is_space(c: char) -> (r: bool)
    ensures
        r == is_space_char(c),
{
    c == ' ' || c == '\t' || c == '\n' || c == '\r' || c == '\u{c}'
}

/// Split `s` into its whitespace-delimited words, in text order.
pub fn split_words(s: &str) -> (r: Vec<String>)
    ensures
        views_of(r@) == words_of(s@),
{
    let n = s.unicode_len();
    let mut out: Vec<String> = Vec::new();
    let mut i: usize = 0;
    proof {
        assert(s@.skip(0) =~= s@);
        assert(views_of(out@) + words_of(s@) =~= words_of(s@));
    }
    while i < n
        invariant
            i <= n,
            n == s@.len(),
            words_of(s@) == views_of(out@) + words_of(s@.skip(i as int)),
        decreases n - i,
    {
        let c = s.get_char(i);
        if is_space(c) {
            proof {
                assert(s@.skip(i as int).drop_first() =~= s@.skip(i + 1));
            }
            i = i + 1;
        } else {
            let start = i;
            let mut j = i + 1;
            while j < n
                invariant
                    start < j <= n,
                    n == s@.len(),
                    forall|k: int| start <= k < j ==> !is_space_char(s@[k]),
                ensures
                    start < j <= n,
                    forall|k: int| start <= k < j ==> !is_space_char(s@[k]),
                    j == n || is_space_char(s@[j as int]),
                decreases n - j,
            {
                if is_space(s.get_char(j)) {
                    break ;
                }
                j = j + 1;
            }
            let word = s.substring_char(start, j);
            let owned = String::from_str(word);
            proof {
                let suffix = s@.skip(start as int);
                lemma_take_word_is_prefix(suffix, (j - start) as int);
                assert(take_word(suffix) =~= word@) by {
                    assert(suffix.take((j - start) as int) =~= s@.subrange(
                        start as int,
                        j as int,
                    ));
                }
                assert(suffix.skip((j - start) as int) =~= s@.skip(j as int));
                assert(words_of(suffix) =~= seq![word@] + words_of(s@.skip(j as int)));
                assert(views_of(out@.push(owned)) =~= views_of(out@) + seq![word@]);
                assert(views_of(out@) + (seq![word@] + words_of(s@.skip(j as int))) =~= (views_of(
                    out@,
                ) + seq![word@]) + words_of(s@.skip(j as int)));
            }
            out.push(owned);
            i = j;
        }
    }
    proof {
        assert(words_of(s@.skip(n as int)) =~= Seq::<Seq<char>>::empty());
        assert(views_of(out@) + Seq::<Seq<char>>::empty() =~= views_of(out@));
    }
    out
}

/// Join `words[lo..hi]` with single spaces.
pub fn join_words(words: &Vec<String>, lo: usize, hi: usize) -> (r: String)
    requires
        lo <= hi <= words@.len(),
    ensures
        r@ == space_join(views_of(words@).subrange(lo as int, hi as int)),
{
    let mut r = String::new();
    let mut k = lo;
    while k < hi
        invariant
            lo <= k <= hi <= words@.len(),
            r@ == space_join(views_of(words@).subrange(lo as int, k as int)),
        decreases hi - k,
    {
        proof {
            let done = views_of(words@).subrange(lo as int, k as int);
            lemma_space_join_push(done, words@[k as int]@);
            assert(views_of(words@).subrange(lo as int, k + 1) =~= done.push(
                words@[k as int]@,
            ));
        }
        if k > lo {
            r.append(" ");
            proof {
                reveal_strlit(" ");
                assert(" "@ =~= seq![' ']);
            }
        }
        r.append(words[k].as_str());
        k = k + 1;
    }
    r
}

} // verus!
