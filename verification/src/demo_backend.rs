//! What the built-in demonstration servers say: enough of HTTP/1.1 to answer a
//! `/v1/chat/completions` request without any real model.

use crate::provider::Usage;
use crate::text::{decimal, push_decimal};
use vstd::prelude::*;
use vstd::string::*;

verus! {

/// How one demonstration server behaves.
#[derive(Clone, Copy, Debug, PartialEq)]
pub struct DemoBackend {
    pub persona: &'static str,
    /// Delay before each answer, in milliseconds.
    pub delay_ms: u64,
}

/// The server that stands for a tier: the dearer the tier, the slower.
pub fn demo_backend(tier: usize) -> (r: DemoBackend)
    requires
        tier < 3,
    ensures
        r.persona@ == match tier {
            0 => "assistant local"@,
            1 => "assistant économique"@,
            _ => "assistant premium"@,
        },
        r.delay_ms == match tier {
            0 => 0int,
            1 => 30,
            _ => 80,
        },
{
    match tier {
        0 => DemoBackend { persona: "assistant local", delay_ms: 0 },
        1 => DemoBackend { persona: "assistant économique", delay_ms: 30 },
        _ => DemoBackend { persona: "assistant premium", delay_ms: 80 },
    }
}

/// The blank line that ends the head of a request starts at place `i`.
pub open spec fn blank_line_at(data: Seq<u8>, i: int) -> bool {
    &&& 0 <= i
    &&& i + 4 <= data.len()
    &&& data[i] == 13
    &&& data[i + 1] == 10
    &&& data[i + 2] == 13
    &&& data[i + 3] == 10
}

/// Whether the head of a request was received whole.
pub fn head_received(data: &[u8]) -> (b: bool)
    ensures
        b == exists|i: int| #[trigger] blank_line_at(data@, i),
{
    if data.len() < 4 {
        return false;
    }
    let last: usize = data.len() - 4;
    let mut i: usize = 0;
    loop
        invariant
            i <= last,
            last + 4 == data@.len(),
            forall|k: int| 0 <= k < i ==> !#[trigger] blank_line_at(data@, k),
        decreases last - i,
    {
        if data[i] == 13 && data[i + 1] == 10 && data[i + 2] == 13 && data[i + 3] == 10 {
            assert(blank_line_at(data@, i as int));
            return true;
        }
        if i == last {
            return false;
        }
        i = i + 1;
    }
}

/// What a demonstration server answers to any prompt.
pub fn demo_answer(persona: &str) -> (r: String)
    ensures
        r@ == "["@ + persona@ + "] réponse simulée"@,
{
    "[".to_owned().concat(persona).concat("] réponse simulée")
}

/// The tokens that a demonstration server says it used, whatever the prompt.
pub fn demo_usage() -> (u: Usage)
    ensures
        u.prompt_tokens == 20,
        u.completion_tokens == 15,
{
    Usage { prompt_tokens: 20, completion_tokens: 15 }
}

/// A successful HTTP response with a JSON body, and the length of that body in bytes.
pub open spec fn ok_response(body: Seq<char>, length: nat) -> Seq<char> {
    "HTTP/1.1 200 OK\r\nContent-Type: application/json\r\nContent-Length: "@ + decimal(length)
        + "\r\nConnection: close\r\n\r\n"@ + body
}

/// The HTTP response that carries a JSON body.
pub fn http_ok(body: &str) -> (r: String)
    ensures
        r@ == ok_response(body@, body.spec_bytes().len() as usize as nat),
{
    let mut r: String =
        "HTTP/1.1 200 OK\r\nContent-Type: application/json\r\nContent-Length: ".to_owned();
    push_decimal(&mut r, body.len() as u128);
    r.append("\r\nConnection: close\r\n\r\n");
    r.append(body);
    r
}

} // verus!
