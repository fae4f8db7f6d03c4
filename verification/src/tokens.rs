//! Approximate number of tokens of a text.
//!
//! This is not a real tokenizer: about four characters make one token, which is
//! enough to choose a route and to project a cost before a call. What is billed
//! afterwards is the usage that the provider reports.

use vstd::prelude::*;
use vstd::string::*;

verus! {

/// Average number of characters per token.
pub const CHARS_PER_TOKEN: usize = 4;

/// Formatting tokens that a chat message adds to its content.
pub const PER_MESSAGE_OVERHEAD: usize = 4;

/// The number of tokens of `chars` characters: a fourth of them, rounded up.
pub open spec fn tokens_for(chars: nat) -> nat {
    (chars + 3) / 4
}

/// Estimates the number of tokens of a text from its length in characters:
/// zero for an empty text, at least one for any other.
pub fn estimate_tokens(text: &str) -> (n: usize)
    ensures
        n == tokens_for(text@.len()),
        n == 0 <==> text@.len() == 0,
{
    let chars: usize = text.unicode_len();
    let whole: usize = chars / CHARS_PER_TOKEN;
    if chars % CHARS_PER_TOKEN == 0 {
        whole
    } else {
        whole + 1
    }
}

/// The number of tokens of a list of chat messages (role and content): what
/// their contents make, and the overhead of each message.
pub open spec fn chat_tokens(messages: Seq<(&str, &str)>) -> nat
    decreases messages.len(),
{
    if messages.len() == 0 {
        0
    } else {
        chat_tokens(messages.drop_last()) + tokens_for(messages.last().1@.len())
            + PER_MESSAGE_OVERHEAD as nat
    }
}

/// Estimates the number of tokens of a list of chat messages (role and content).
pub fn estimate_chat_tokens(messages: &[(&str, &str)]) -> (n: usize)
    requires
        chat_tokens(messages@) <= usize::MAX,
    ensures
        n == chat_tokens(messages@),
{
    let mut total: usize = 0;
    let mut i: usize = 0;
    while i < messages.len()
        invariant
            i <= messages@.len(),
            total == chat_tokens(messages@.take(i as int)),
            chat_tokens(messages@) <= usize::MAX,
        decreases messages@.len() - i,
    {
        proof {
            let next = messages@.take(i + 1);
            assert(next.drop_last() == messages@.take(i as int));
            lemma_chat_tokens_prefix(messages@, i + 1);
        }
        total = total + (estimate_tokens(messages[i].1) + PER_MESSAGE_OVERHEAD);
        i = i + 1;
    }
    proof {
        assert(messages@.take(i as int) == messages@);
    }
    total
}

proof fn lemma_chat_tokens_prefix(messages: Seq<(&str, &str)>, i: int)
    requires
        0 <= i <= messages.len(),
    ensures
        chat_tokens(messages.take(i)) <= chat_tokens(messages),
    decreases messages.len(),
{
    if i == messages.len() {
        assert(messages.take(i) == messages);
    } else {
        lemma_chat_tokens_prefix(messages.drop_last(), i);
        assert(messages.drop_last().take(i) == messages.take(i));
    }
}

/// The sum of the tokens of the contents alone.
pub open spec fn content_tokens(messages: Seq<(&str, &str)>) -> nat
    decreases messages.len(),
{
    if messages.len() == 0 {
        0
    } else {
        content_tokens(messages.drop_last()) + tokens_for(messages.last().1@.len())
    }
}

/// A longer text never has fewer tokens, and four characters more are one
/// token more.
pub proof fn law_tokens_grow_with_length(a: nat, b: nat)
    ensures
        a <= b ==> tokens_for(a) <= tokens_for(b),
        tokens_for(a + 4) == tokens_for(a) + 1,
{
}

/// The estimate of a chat is that of its contents and four tokens for each
/// message.
pub proof fn law_chat_counts_the_overhead_of_each_message(messages: Seq<(&str, &str)>)
    ensures
        chat_tokens(messages) == content_tokens(messages) + 4 * messages.len(),
    decreases messages.len(),
{
    if messages.len() > 0 {
        law_chat_counts_the_overhead_of_each_message(messages.drop_last());
    }
}

} // verus!
