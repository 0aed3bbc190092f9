//! The abstraction over language-model providers and their configuration.
use vstd::prelude::*;
use crate::error::AppError;
use crate::text::{chars_of, copy_opt_string, copy_string, opt_view, push_chars, string_of};

verus! {

/// What a completion gave back, with the text taken by its characters.
pub open spec fn reply_view(r: Result<String, AppError>) -> Result<Seq<char>, AppError> {
    match r {
        Ok(s) => Ok(s@),
        Err(e) => Err(e),
    }
}

/// Abstraction over different LLM providers (Ollama, OpenAI-compatible,
/// or a scripted mock). What a provider answers is its own business. A
/// client may keep a history of its exchanges; one that does promises that
/// each completion joins it.
pub trait LlmClient {
    /// Whether the client keeps `history` (one that does not promises
    /// nothing of it).
    open spec fn keeps_history(&self) -> bool {
        false
    }

    /// Every prompt the client was sent, in order, with what came back.
    open spec fn history(&self) -> Seq<(Seq<char>, Result<Seq<char>, AppError>)> {
        Seq::empty()
    }

    /// Send a prompt and return the completion text.
    fn complete(&mut self, prompt: &str) -> (r: Result<String, AppError>)
        ensures
            final(self).keeps_history() == old(self).keeps_history(),
            old(self).keeps_history() ==> final(self).history() == old(self).history().push(
                (prompt@, reply_view(r)),
            ),
    ;

    /// The provider name, for logging.
    fn provider_name(&self) -> &'static str;
}

/// Which LLM provider to talk to, and how.
#[derive(Debug)]
pub struct LlmConfig {
    /// "ollama" or "openai"; anything else is treated as "ollama".
    pub provider: String,
    pub base_url: String,
    pub model: String,
    pub api_key: Option<String>,
}

/// The concrete client that a configuration calls for.
#[derive(Debug)]
pub enum ClientPlan {
    /// An OpenAI-compatible chat-completions endpoint.
    OpenAi { base_url: String, model: String, api_key: String },
    /// A local Ollama server.
    Ollama { base_url: String, model: String },
}

impl LlmConfig {
    /// Chooses the client for this configuration: "openai" selects the
    /// OpenAI-compatible client (a missing key becomes the empty key), any
    /// other provider selects Ollama.
    pub fn build_client(&self) -> (r: ClientPlan)
        ensures
            self.provider@ == "openai"@ ==> (r matches ClientPlan::OpenAi { base_url, model, api_key }
                && base_url@ == self.base_url@ && model@ == self.model@ && api_key@ == (
            match self.api_key {
                Some(k) => k@,
                None => Seq::empty(),
            })),
            self.provider@ != "openai"@ ==> (r matches ClientPlan::Ollama { base_url, model }
                && base_url@ == self.base_url@ && model@ == self.model@),
    {
        let openai = "openai".to_owned();
        if self.provider == openai {
            let key = match &self.api_key {
                Some(k) => copy_string(k),
                None => String::new(),
            };
            ClientPlan::OpenAi {
                base_url: copy_string(&self.base_url),
                model: copy_string(&self.model),
                api_key: key,
            }
        } else {
            ClientPlan::Ollama { base_url: copy_string(&self.base_url), model: copy_string(&self.model) }
        }
    }

    /// A copy of the configuration.
    pub fn duplicate(&self) -> (r: LlmConfig)
        ensures
            r.provider@ == self.provider@,
            r.base_url@ == self.base_url@,
            r.model@ == self.model@,
            opt_view(r.api_key) == opt_view(self.api_key),
    {
        LlmConfig {
            provider: copy_string(&self.provider),
            base_url: copy_string(&self.base_url),
            model: copy_string(&self.model),
            api_key: copy_opt_string(&self.api_key),
        }
    }
}

/// The configuration used when none is given: Ollama on localhost with llama3.
pub fn default_llm_config() -> (r: LlmConfig)
    ensures
        r.provider@ == "ollama"@,
        r.base_url@ == "http://localhost:11434"@,
        r.model@ == "llama3"@,
        r.api_key is None,
{
    LlmConfig {
        provider: "ollama".to_owned(),
        base_url: "http://localhost:11434".to_owned(),
        model: "llama3".to_owned(),
        api_key: None,
    }
}

/// `s` without any trailing `c` (as `str::trim_end_matches(c)`).
pub open spec fn trim_end_char(s: Seq<char>, c: char) -> Seq<char>
    decreases s.len(),
{
    if s.len() > 0 && s.last() == c {
        trim_end_char(s.drop_last(), c)
    } else {
        s
    }
}

/// `v` without any trailing `c`.
pub fn trim_end_char_chars(v: &[char], c: char) -> (r: Vec<char>)
    ensures
        r@ == trim_end_char(v@, c),
{
    let mut j: usize = v.len();
    assert(v@.take(v@.len() as int) =~= v@);
    while j > 0 && v[j - 1] == c
        invariant
            j <= v@.len(),
            trim_end_char(v@.take(j as int), c) == trim_end_char(v@, c),
        decreases j,
    {
        assert(v@.take(j as int).drop_last() =~= v@.take(j - 1));
        j = j - 1;
    }
    assert(v@.take(v@.len() as int) =~= v@);
    let r = crate::text::slice_chars(v, 0, j);
    assert(r@ =~= v@.take(j as int));
    r
}

/// `base` with trailing slashes removed, followed by `path`.
pub open spec fn endpoint(base: Seq<char>, path: Seq<char>) -> Seq<char> {
    trim_end_char(base, '/') + path
}

/// Joins a base URL and a path, dropping trailing slashes of the base.
pub fn endpoint_url(base: &str, path: &str) -> (r: String)
    ensures
        r@ == endpoint(base@, path@),
{
    let b = chars_of(base);
    let t = trim_end_char_chars(&b, '/');
    let mut s = string_of(&t);
    let p = chars_of(path);
    push_chars(&mut s, &p);
    s
}

/// The Ollama generate endpoint for a server URL.
pub fn ollama_generate_url(base_url: &str) -> (r: String)
    ensures
        r@ == endpoint(base_url@, "/api/generate"@),
{
    endpoint_url(base_url, "/api/generate")
}

/// The OpenAI-compatible chat endpoint for a server URL.
pub fn openai_chat_url(base_url: &str) -> (r: String)
    ensures
        r@ == endpoint(base_url@, "/chat/completions"@),
{
    endpoint_url(base_url, "/chat/completions")
}

/// The answer of a chat completion: the content of its first choice, or an
/// error when the reply has no choices.
pub fn first_choice(contents: Vec<String>) -> (r: Result<String, AppError>)
    ensures
        contents@.len() > 0 ==> (r matches Ok(s) && s@ == contents@[0]@),
        contents@.len() == 0 ==> (r matches Err(AppError::Llm(m)) && m@
            == "Empty choices in OpenAI response"@),
{
    if contents.len() > 0 {
        Ok(copy_string(&contents[0]))
    } else {
        Err(AppError::Llm("Empty choices in OpenAI response".to_owned()))
    }
}

} // verus!
