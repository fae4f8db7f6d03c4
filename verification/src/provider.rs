//! Providers of chat completions, and the protocol of those that speak the
//! `/v1/chat/completions` format: local servers and paid services alike, which
//! only differ in their base URL and in an API key.

use crate::text::{decimal, push_decimal};
use vstd::prelude::*;
use vstd::string::*;

verus! {

/// A request for a completion, independent of the provider.
#[derive(Clone, Debug)]
pub struct CompletionRequest {
    pub model: String,
    pub prompt: String,
    pub max_tokens: Option<u32>,
}

impl CompletionRequest {
    /// A request without a limit on the answer.
    pub fn new(model: &str, prompt: &str) -> (r: CompletionRequest)
        ensures
            r.model@ == model@,
            r.prompt@ == prompt@,
            r.max_tokens is None,
    {
        CompletionRequest { model: model.to_owned(), prompt: prompt.to_owned(), max_tokens: None }
    }
}

/// The tokens that a provider says it used. What is billed is this, not the
/// estimate made before the call.
#[derive(Clone, Copy, Debug, PartialEq, Eq, Structural)]
pub struct Usage {
    pub prompt_tokens: usize,
    pub completion_tokens: usize,
}

impl Default for Usage {
    fn default() -> (r: Usage)
        ensures
            r.prompt_tokens == 0,
            r.completion_tokens == 0,
    {
        Usage { prompt_tokens: 0, completion_tokens: 0 }
    }
}

/// The answer of a provider.
#[derive(Clone, Debug, PartialEq)]
pub struct CompletionResponse {
    pub text: String,
    pub usage: Usage,
}

/// Why a provider gave no answer.
#[derive(Debug)]
pub enum ProviderError {
    /// The provider answered with an error status.
    HttpStatus(u16, String),
    /// No answer: connection refused, timeout, name not found.
    Transport(String),
    /// An answer of an unexpected form.
    MalformedResponse(String),
}

/// The message of a provider error.
pub open spec fn provider_error_text(e: ProviderError) -> Seq<char> {
    match e {
        ProviderError::HttpStatus(code, body) => "erreur HTTP "@ + decimal(code as nat) + ": "@
            + body@,
        ProviderError::Transport(msg) => "erreur de transport: "@ + msg@,
        ProviderError::MalformedResponse(msg) => "réponse malformée: "@ + msg@,
    }
}

impl ProviderError {
    /// The message of the error.
    pub fn describe(&self) -> (r: String)
        ensures
            r@ == provider_error_text(*self),
    {
        let mut r: String = String::new();
        match self {
            ProviderError::HttpStatus(code, body) => {
                r.append("erreur HTTP ");
                push_decimal(&mut r, *code as u128);
                r.append(": ");
                r.append(body.as_str());
            },
            ProviderError::Transport(msg) => {
                r.append("erreur de transport: ");
                r.append(msg.as_str());
            },
            ProviderError::MalformedResponse(msg) => {
                r.append("réponse malformée: ");
                r.append(msg.as_str());
            },
        }
        assert(r@ =~= provider_error_text(*self));
        r
    }
}

/// What a call of a provider gives back.
pub type Reply = Result<CompletionResponse, ProviderError>;

/// A provider of completions.
pub trait Provider: Send + Sync {
    fn name(&self) -> &str;

    fn complete(&self, req: &CompletionRequest) -> Result<CompletionResponse, ProviderError>;
}

/// A provider that speaks the chat completion format over HTTP.
#[derive(Clone, Debug)]
pub struct HttpProvider {
    name: String,
    base_url: String,
    api_key: Option<String>,
    timeout: u128,
}

/// The timeout of a provider that was given none: 30 seconds.
pub const DEFAULT_TIMEOUT_NANOS: u128 = 30_000_000_000;

/// One message of a chat.
#[derive(Clone, Debug, PartialEq)]
pub struct ChatMessage {
    pub role: &'static str,
    pub content: String,
}

/// A call to make over HTTP: what to send, where, and for how long to wait.
#[derive(Clone, Debug, PartialEq)]
pub struct HttpCall {
    pub url: String,
    /// Value of the `Authorization` header, if there is one to send.
    pub authorization: Option<String>,
    /// In nanoseconds.
    pub timeout: u128,
    pub model: String,
    pub messages: Vec<ChatMessage>,
    pub max_tokens: Option<u32>,
}

/// What came back of a call over HTTP.
#[derive(Clone, Debug)]
pub enum HttpReply {
    /// A body of the expected form: the contents of its choices, and the usage
    /// if the provider reports one.
    Body { choices: Vec<String>, usage: Option<Usage> },
    /// A body of another form, and what is wrong with it.
    Unreadable(String),
    /// An error status and the body that came with it.
    Status(u16, String),
    /// No answer, and why.
    NoAnswer(String),
}

/// A text without the slashes at its end.
pub open spec fn without_trailing_slashes(s: Seq<char>) -> Seq<char>
    decreases s.len(),
{
    if s.len() > 0 && s.last() == '/' {
        without_trailing_slashes(s.drop_last())
    } else {
        s
    }
}

fn trim_slashes(s: &str) -> (r: &str)
    ensures
        r@ == without_trailing_slashes(s@),
{
    let mut n: usize = s.unicode_len();
    assert(s@.take(n as int) =~= s@);
    while n > 0 && s.get_char(n - 1) == '/'
        invariant
            n <= s@.len(),
            without_trailing_slashes(s@) == without_trailing_slashes(s@.take(n as int)),
        decreases n,
    {
        assert(s@.take(n as int).drop_last() =~= s@.take(n - 1));
        n = n - 1;
    }
    s.substring_char(0, n)
}

/// The URL at which a provider takes chat completions.
pub open spec fn endpoint_of(base_url: Seq<char>) -> Seq<char> {
    without_trailing_slashes(base_url) + "/v1/chat/completions"@
}

/// What a reply over HTTP means: the first choice with its usage, all zero if
/// none is reported, or the error that stands for it.
pub open spec fn means(reply: HttpReply, r: Reply) -> bool {
    match reply {
        HttpReply::Body { choices, usage } => if choices@.len() > 0 {
            &&& r matches Ok(response)
            &&& response.text@ == choices@[0]@
            &&& response.usage == (match usage {
                Some(u) => u,
                None => Usage { prompt_tokens: 0, completion_tokens: 0 },
            })
        } else {
            r matches Err(ProviderError::MalformedResponse(msg)) && msg@ == "aucun choix renvoyé"@
        },
        HttpReply::Unreadable(what) => r == Reply::Err(ProviderError::MalformedResponse(what)),
        HttpReply::Status(code, body) => r == Reply::Err(ProviderError::HttpStatus(code, body)),
        HttpReply::NoAnswer(why) => r == Reply::Err(ProviderError::Transport(why)),
    }
}

impl HttpProvider {
    pub closed spec fn spec_name(&self) -> Seq<char> {
        self.name@
    }

    pub closed spec fn spec_base_url(&self) -> Seq<char> {
        self.base_url@
    }

    pub closed spec fn spec_api_key(&self) -> Option<Seq<char>> {
        match self.api_key {
            Some(key) => Some(key@),
            None => None,
        }
    }

    pub closed spec fn spec_timeout(&self) -> u128 {
        self.timeout
    }

    /// A provider at a base URL, without an API key and with the default timeout.
    pub fn new(name: &str, base_url: &str) -> (r: HttpProvider)
        ensures
            r.spec_name() == name@,
            r.spec_base_url() == base_url@,
            r.spec_api_key() is None,
            r.spec_timeout() == DEFAULT_TIMEOUT_NANOS,
    {
        HttpProvider {
            name: name.to_owned(),
            base_url: base_url.to_owned(),
            api_key: None,
            timeout: DEFAULT_TIMEOUT_NANOS,
        }
    }

    /// The provider with an API key.
    pub fn with_api_key(self, key: &str) -> (r: HttpProvider)
        ensures
            r.spec_name() == self.spec_name(),
            r.spec_base_url() == self.spec_base_url(),
            r.spec_api_key() == Some(key@),
            r.spec_timeout() == self.spec_timeout(),
    {
        HttpProvider { api_key: Some(key.to_owned()), ..self }
    }

    /// The provider with a timeout, in nanoseconds.
    pub fn with_timeout(self, timeout: u128) -> (r: HttpProvider)
        ensures
            r.spec_name() == self.spec_name(),
            r.spec_base_url() == self.spec_base_url(),
            r.spec_api_key() == self.spec_api_key(),
            r.spec_timeout() == timeout,
    {
        HttpProvider { timeout, ..self }
    }

    /// The name of the provider.
    pub fn name(&self) -> (r: &str)
        ensures
            r@ == self.spec_name(),
    {
        self.name.as_str()
    }

    /// The call that asks this provider for a completion.
    pub fn prepare(&self, req: &CompletionRequest) -> (call: HttpCall)
        ensures
            call.url@ == endpoint_of(self.spec_base_url()),
            match self.spec_api_key() {
                Some(key) => call.authorization is Some && call.authorization->0@ == "Bearer "@
                    + key,
                None => call.authorization is None,
            },
            call.timeout == self.spec_timeout(),
            call.model@ == req.model@,
            call.messages@.len() == 1,
            call.messages@[0].role@ == "user"@,
            call.messages@[0].content@ == req.prompt@,
            call.max_tokens == req.max_tokens,
    {
        let mut url: String = trim_slashes(self.base_url.as_str()).to_owned();
        url.append("/v1/chat/completions");
        let authorization: Option<String> = match &self.api_key {
            Some(key) => {
                let mut value: String = "Bearer ".to_owned();
                value.append(key.as_str());
                Some(value)
            },
            None => None,
        };
        let mut messages: Vec<ChatMessage> = Vec::new();
        messages.push(ChatMessage { role: "user", content: req.prompt.clone() });
        HttpCall {
            url,
            authorization,
            timeout: self.timeout,
            model: req.model.clone(),
            messages,
            max_tokens: req.max_tokens,
        }
    }
}

/// Turns what came back over HTTP into an answer or an error.
pub fn interpret(reply: HttpReply) -> (r: Result<CompletionResponse, ProviderError>)
    ensures
        means(reply, r),
{
    match reply {
        HttpReply::Body { choices, usage } => {
            if choices.len() == 0 {
                return Err(ProviderError::MalformedResponse("aucun choix renvoyé".to_owned()));
            }
            let usage: Usage = match usage {
                Some(u) => u,
                None => Usage { prompt_tokens: 0, completion_tokens: 0 },
            };
            Ok(CompletionResponse { text: choices[0].clone(), usage })
        },
        HttpReply::Unreadable(what) => Err(ProviderError::MalformedResponse(what)),
        HttpReply::Status(code, body) => Err(ProviderError::HttpStatus(code, body)),
        HttpReply::NoAnswer(why) => Err(ProviderError::Transport(why)),
    }
}

/// A base URL means the same with and without slashes at its end.
pub proof fn law_trailing_slashes_do_not_matter(base_url: Seq<char>)
    ensures
        endpoint_of(base_url.push('/')) == endpoint_of(base_url),
        without_trailing_slashes(base_url).len() > 0 ==> without_trailing_slashes(base_url).last()
            != '/',
    decreases base_url.len(),
{
    assert(base_url.push('/').drop_last() =~= base_url);
    if base_url.len() > 0 && base_url.last() == '/' {
        law_trailing_slashes_do_not_matter(base_url.drop_last());
    }
}

} // verus!
