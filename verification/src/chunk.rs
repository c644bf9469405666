//! Splitting a message body into token-bounded chunks.
//!
//! A body whose token count fits the budget becomes one chunk. A longer body
//! is split into contiguous windows of whitespace-delimited words, each
//! window holding at most three quarters of the budget in words; every window
//! is re-counted on its own text. Chunks are a pure function of the body, so
//! chunking can be restarted at will.

use crate::tokens::num_tokens_from_str;
use crate::tokens::token_count_of;
use crate::words::join_words;
use crate::words::lemma_space_join_concat;
use crate::words::lemma_space_join_len;
use crate::words::lemma_words_of_space_join;
use crate::words::lemma_words_wordlike;
use crate::words::space_join;
use crate::words::split_words;
use crate::words::views_of;
use crate::words::wordlike;
use crate::words::words_of;
use vstd::arithmetic::div_mod::lemma_div_is_ordered;
use vstd::arithmetic::div_mod::lemma_fundamental_div_mod;
use vstd::arithmetic::div_mod::lemma_fundamental_div_mod_converse;
use vstd::prelude::*;

verus! {

/// The token budget one chunk must fit in.
pub const TARGET_TOKENS: usize = 512;

/// One contiguous window of a message body's words, sized to the token
/// budget: its zero-based position among the body's chunks, its text, and the
/// token count of that text.
pub struct Chunk {
    pub index: usize,
    pub text: String,
    pub tokens: usize,
}

/// How many words one window may hold for a token budget: three quarters of
/// the budget.
pub open spec fn window_width(target: int) -> int {
    target * 3 / 4
}

/// How many windows of width `w` cover `n` words: `ceil(n / w)`.
pub open spec fn window_count_of(n: int, w: int) -> int {
    (n + w - 1) / w
}

/// The `j`-th window of `ws` at width `w`: up to `w` words starting at
/// `j * w`.
pub open spec fn window_of(ws: Seq<Seq<char>>, w: int, j: int) -> Seq<Seq<char>> {
    let hi = if (j + 1) * w <= ws.len() { (j + 1) * w } else { ws.len() as int };
    ws.subrange(j * w, hi)
}

/// What chunking a body `s` under budget `target` must produce.
///
/// Under budget: exactly one chunk, the whole body, with its token count.
/// Over budget: one chunk per window of `window_width(target)` words, in
/// window order, each chunk the single-space join of its window's words with
/// that text's own token count.
pub open spec fn chunk_seq_ok(s: Seq<char>, target: int, cs: Seq<Chunk>) -> bool {
    if token_count_of(s) <= target {
        &&& cs.len() == 1
        &&& cs[0].index == 0
        &&& cs[0].text@ == s
        &&& cs[0].tokens as nat == token_count_of(s)
    } else {
        let w = window_width(target);
        &&& cs.len() == window_count_of(words_of(s).len() as int, w)
        &&& forall|j: int| 0 <= j < cs.len() ==> chunk_at(s, target, #[trigger] cs[j], j)
    }
}

/// The `j`-th chunk of an over-budget body.
pub open spec fn chunk_at(s: Seq<char>, target: int, c: Chunk, j: int) -> bool {
    let w = window_width(target);
    &&& c.index == j
    &&& c.text@ == space_join(window_of(words_of(s), w, j))
    &&& c.tokens as nat == token_count_of(c.text@)
    &&& c.tokens > 0
}

/// Split `body` into chunks for a token budget of `target` tokens.
pub fn chunk_with_budget(body: &str, target: usize) -> (r: Vec<Chunk>)
    requires
        2 <= target && target <= usize::MAX / 3,
    ensures
        chunk_seq_ok(body@, target as int, r@),
{
    let token_len = num_tokens_from_str(body);
    if token_len <= target {
        let text = String::from_str(body);
        let mut out: Vec<Chunk> = Vec::new();
        out.push(Chunk { index: 0, text, tokens: token_len });
        out
    } else {
        let words = split_words(body);
        let w = target * 3 / 4;
        let total = words.len();
        let ghost gw = window_width(target as int);
        proof {
            lemma_words_wordlike(body@);
        }
        let mut out: Vec<Chunk> = Vec::new();
        let mut start: usize = 0;
        while start < total
            invariant
                2 <= target && target <= usize::MAX / 3,
                gw == window_width(target as int),
                w as int == gw,
                1 <= w,
                total == words@.len(),
                views_of(words@) == words_of(body@),
                token_count_of(body@) > target,
                forall|i: int|
                    0 <= i < words_of(body@).len() ==> wordlike(#[trigger] words_of(body@)[i]),
                start as int == if out@.len() * gw <= total {
                    out@.len() * gw
                } else {
                    total as int
                },
                out@.len() > 0 ==> (out@.len() - 1) * gw < total,
                forall|j: int|
                    0 <= j < out@.len() ==> chunk_at(body@, target as int, #[trigger] out@[j], j),
            decreases total - start,
        {
            let ghost j = out@.len() as int;
            proof {
                assert(start as int == j * gw);
            }
            let end = if total - start > w {
                start + w
            } else {
                total
            };
            let text = join_words(&words, start, end);
            let tokens = num_tokens_from_str(text.as_str());
            proof {
                let ws = words_of(body@);
                assert((j + 1) * gw == j * gw + gw) by (nonlinear_arith);
                assert(text@ == space_join(window_of(ws, gw, j)));
                assert(window_of(ws, gw, j).len() > 0);
                assert(window_of(ws, gw, j)[0] == ws[start as int]);
                lemma_space_join_len(window_of(ws, gw, j));
                assert(text@.len() > 0);
                assert(tokens > 0);
            }
            let idx = out.len();
            if tokens > 0 {
                out.push(Chunk { index: idx, text, tokens });
            }
            proof {
                assert(out@.len() == j + 1);
                assert((j + 1) * gw == j * gw + gw) by (nonlinear_arith);
                assert(end as int == if (j + 1) * gw <= total {
                    (j + 1) * gw
                } else {
                    total as int
                });
                assert(chunk_at(body@, target as int, out@[j], j));
            }
            start = end;
        }
        proof {
            let n = total as int;
            let j = out@.len() as int;
            if n == 0 {
                assert(window_count_of(0, gw) == (gw - 1) / gw);
                lemma_fundamental_div_mod_converse(gw - 1, gw, 0, gw - 1);
                assert(out@.len() == 0);
            } else {
                assert(j >= 1);
                assert(j * gw >= n);
                assert((j - 1) * gw < n);
                let r = n + gw - 1 - j * gw;
                assert((j - 1) * gw == j * gw - gw) by (nonlinear_arith);
                assert(0 <= r < gw);
                lemma_fundamental_div_mod_converse(n + gw - 1, gw, j, r);
                assert(window_count_of(n, gw) == j);
            }
        }
        out
    }
}

/// The texts of all windows of `ws` at width `w`, in window order.
pub open spec fn window_texts(ws: Seq<Seq<char>>, w: int) -> Seq<Seq<char>> {
    Seq::new(window_count_of(ws.len() as int, w) as nat, |j: int| space_join(window_of(ws, w, j)))
}

/// A window width is at least one word when the budget is at least two
/// tokens.
pub proof fn lemma_window_width_pos(target: int)
    requires
        2 <= target,
    ensures
        window_width(target) >= 1,
{
    lemma_div_is_ordered(6, target * 3, 4);
}

/// Splitting `n > w` words off by one window leaves one window fewer.
proof fn lemma_window_count_step(n: int, w: int)
    requires
        1 <= w < n,
    ensures
        window_count_of(n, w) == 1 + window_count_of(n - w, w),
        window_count_of(n - w, w) >= 1,
{
    let q = (n - 1) / w;
    let r = (n - 1) % w;
    lemma_fundamental_div_mod(n - 1, w);
    assert(w * q == q * w) by (nonlinear_arith);
    assert((q + 1) * w == q * w + w) by (nonlinear_arith);
    lemma_fundamental_div_mod_converse(n + w - 1, w, q + 1, r);
    assert(window_count_of(n, w) == q + 1);
    assert(window_count_of(n - w, w) == (n - 1) / w);
    if q == 0 {
        assert(n - 1 == w * 0 + r);
        assert(w * 0 == 0) by (nonlinear_arith);
        assert(false);
    }
}

/// Joining all the window texts of `ws` gives the same text as joining `ws`
/// itself.
pub proof fn lemma_join_windows(ws: Seq<Seq<char>>, w: int)
    requires
        w >= 1,
        ws.len() > 0,
    ensures
        space_join(window_texts(ws, w)) == space_join(ws),
    decreases ws.len(),
{
    let n = ws.len() as int;
    if n <= w {
        lemma_fundamental_div_mod_converse(n + w - 1, w, 1, n - 1);
        assert(window_count_of(n, w) == 1);
        assert(1 * w == w) by (nonlinear_arith);
        assert(0 * w == 0) by (nonlinear_arith);
        assert(window_of(ws, w, 0) =~= ws);
        assert(window_texts(ws, w) =~= seq![space_join(ws)]);
    } else {
        let rest = ws.skip(w);
        lemma_window_count_step(n, w);
        lemma_join_windows(rest, w);
        let t0 = space_join(window_of(ws, w, 0));
        assert(1 * w == w) by (nonlinear_arith);
        assert(0 * w == 0) by (nonlinear_arith);
        assert(window_of(ws, w, 0) =~= ws.take(w));
        assert(window_texts(ws, w) =~= seq![t0] + window_texts(rest, w)) by {
            assert forall|jj: int| 1 <= jj < window_count_of(n, w) implies #[trigger] window_of(
                ws,
                w,
                jj,
            ) =~= window_of(rest, w, jj - 1) by {
                let c = window_count_of(n, w);
                lemma_fundamental_div_mod(n + w - 1, w);
                assert(w * c == c * w) by (nonlinear_arith);
                assert(jj * w <= (c - 1) * w) by (nonlinear_arith)
                    requires
                        jj <= c - 1,
                        1 <= w,
                ;
                assert((c - 1) * w == c * w - w) by (nonlinear_arith);
                assert(jj * w <= n - 1);
                assert((jj - 1) * w + w == jj * w) by (nonlinear_arith);
                assert(jj * w + w == (jj + 1) * w) by (nonlinear_arith);
                assert((jj - 1) * w >= 0) by (nonlinear_arith)
                    requires
                        1 <= jj,
                        1 <= w,
                ;
                let a = (jj - 1) * w;
                let hi2 = if jj * w <= n - w {
                    jj * w
                } else {
                    n - w
                };
                assert(rest.subrange(a, hi2) =~= ws.subrange(a + w, hi2 + w));
            }
        }
        assert(window_texts(rest, w).len() > 0);
        lemma_space_join_concat(seq![t0], window_texts(rest, w));
        assert(seq![t0] + window_texts(rest, w) =~= window_texts(ws, w));
        assert(space_join(window_texts(ws, w)) == t0 + seq![' '] + space_join(rest));
        lemma_space_join_concat(ws.take(w), rest);
        assert(ws.take(w) + rest =~= ws);
    }
}

/// The chunks of a body rebuild it word for word: joining the chunk texts
/// with single spaces yields a text with exactly the body's word sequence.
pub proof fn law_chunks_rejoin_words(s: Seq<char>, target: int, cs: Seq<Chunk>)
    requires
        2 <= target,
        chunk_seq_ok(s, target, cs),
    ensures
        words_of(space_join(cs.map_values(|c: Chunk| c.text@))) == words_of(s),
{
    let texts = cs.map_values(|c: Chunk| c.text@);
    if token_count_of(s) <= target {
        assert(texts =~= seq![s]);
        assert(space_join(texts) == s);
    } else {
        let w = window_width(target);
        let ws = words_of(s);
        lemma_window_width_pos(target);
        if ws.len() == 0 {
            lemma_fundamental_div_mod_converse(w - 1, w, 0, w - 1);
            assert(0 * w == 0) by (nonlinear_arith);
            assert(window_count_of(0, w) == 0);
            assert(texts =~= Seq::<Seq<char>>::empty());
            assert(space_join(texts) =~= Seq::<char>::empty());
            assert(words_of(space_join(texts)) =~= ws);
        } else {
            assert(texts =~= window_texts(ws, w));
            lemma_join_windows(ws, w);
            lemma_words_wordlike(s);
            lemma_words_of_space_join(ws);
        }
    }
}

/// Split `body` into chunks under the pipeline's fixed token budget.
pub fn chunk_body(body: &str) -> (r: Vec<Chunk>)
    ensures
        chunk_seq_ok(body@, TARGET_TOKENS as int, r@),
{
    chunk_with_budget(body, TARGET_TOKENS)
}

} // verus!
