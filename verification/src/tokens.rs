//! Token counting for chunk-size decisions.
//!
//! The whole pipeline sizes chunks and reports length metadata in tokens of
//! one fixed byte-pair tokenization scheme. The scheme itself lives in an
//! outside crate; this module gives its count a name and states the few facts
//! the rest of the library relies on.

use vstd::prelude::*;

verus! {

/// The number of tokens that the fixed byte-pair tokenization scheme assigns
/// to a text. A pure function of the characters alone.
pub uninterp spec fn token_count_of(s: Seq<char>) -> nat;

/// Relies on `tiktoken_rs::cl100k_base_singleton` and
/// `CoreBPE::encode_with_special_tokens`: the encoder is built once from data
/// embedded in the crate, so the token sequence is a function of the text
/// alone; the tokenizer's pattern matches every character class, so a
/// non-empty text yields at least one token and the empty text yields none.
#[verifier::external_body]
fn count_tokens(s: &str) -> (r: usize)
    ensures
        r as nat == token_count_of(s@),
        s@.len() == 0 ==> r == 0,
        s@.len() > 0 ==> r >= 1,
{
    let bpe = tiktoken_rs::cl100k_base_singleton();
    bpe.encode_with_special_tokens(s).len()
}

/// Count the tokens of `string` under the pipeline's fixed tokenization
/// scheme. Deterministic; the empty string counts as zero tokens.
pub fn num_tokens_from_str(string: &str) -> (r: usize)
    ensures
        r as nat == token_count_of(string@),
        string@.len() == 0 ==> r == 0,
        string@.len() > 0 ==> r >= 1,
{
    count_tokens(string)
}

} // verus!
