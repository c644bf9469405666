//! Prompt template for the chat model used on the retrieval side.

use vstd::prelude::*;

verus! {

/// The full prompt that wraps one user message for the chat model.
pub open spec fn llama3_prompt(user_message: Seq<char>) -> Seq<char> {
    "\n<|begin_of_text|>\n<|start_header_id|>system<|end_header_id|>\n"@
        + "You are a friendly and useful Chatbot. Be of assistance the best you can.\n"@
        + "<|eot_id|>\n\n<|start_header_id|>user<|end_header_id|>\n"@ + user_message
        + "<|eot_id|>\n\n<|start_header_id|>assistant<|end_header_id|>"@
}

/// Wrap `user_message` in the fixed system prompt and chat-format markers.
pub fn llama3(user_message: &str) -> (r: String)
    ensures
        r@ == llama3_prompt(user_message@),
{
    let mut r = String::from_str("\n<|begin_of_text|>\n<|start_header_id|>system<|end_header_id|>\n");
    r.append("You are a friendly and useful Chatbot. Be of assistance the best you can.\n");
    r.append("<|eot_id|>\n\n<|start_header_id|>user<|end_header_id|>\n");
    r.append(user_message);
    r.append("<|eot_id|>\n\n<|start_header_id|>assistant<|end_header_id|>");
    r
}

} // verus!
