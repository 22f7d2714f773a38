//! Language-model provider configuration and a deterministic stand-in
//! provider. Real providers live outside; the stand-in's replies are
//! pure functions of the conversation and fully specified.

use vstd::prelude::*;
use vstd::string::StringExecFns;

verus! {

/// Message in a conversation.
#[derive(Debug, Clone)]
pub struct Message {
    pub role: Role,
    pub content: String,
}

/// Role in a conversation.
#[derive(Debug, Clone, Copy, PartialEq, Eq, Structural)]
pub enum Role {
    System,
    User,
    Assistant,
    Function,
}

/// Provider configuration.
#[derive(Debug, Clone)]
pub struct LlmConfig {
    pub provider: LlmProviderType,
    pub api_key: Option<String>,
    pub model: String,
    pub endpoint: Option<String>,
    pub timeout_seconds: Option<u64>,
}

impl LlmConfig {
    /// A configuration for a provider and model, with the stock timeout
    /// and no key or endpoint yet.
    pub fn new(provider: LlmProviderType, model: String) -> (r: Self)
        ensures
            r.provider == provider,
            r.api_key is None,
            r.model@ == model@,
            r.endpoint is None,
            r.timeout_seconds == Some(30u64),
    {
        LlmConfig { provider, api_key: None, model, endpoint: None, timeout_seconds: Some(30) }
    }

    /// The same configuration with a key attached.
    pub fn with_api_key(self, api_key: String) -> (r: Self)
        ensures
            r.provider == self.provider,
            r.api_key matches Some(k) && k@ == api_key@,
            r.model@ == self.model@,
            r.endpoint == self.endpoint,
            r.timeout_seconds == self.timeout_seconds,
    {
        LlmConfig { api_key: Some(api_key), ..self }
    }

    /// The same configuration with an endpoint attached.
    pub fn with_endpoint(self, endpoint: String) -> (r: Self)
        ensures
            r.provider == self.provider,
            r.api_key == self.api_key,
            r.model@ == self.model@,
            r.endpoint matches Some(e) && e@ == endpoint@,
            r.timeout_seconds == self.timeout_seconds,
    {
        LlmConfig { endpoint: Some(endpoint), ..self }
    }
}

/// Known provider kinds.
#[derive(Debug, Clone, Copy, PartialEq, Eq, Structural)]
pub enum LlmProviderType {
    OpenAI,
    Anthropic,
    Google,
    Cohere,
    HuggingFace,
    Local,
    Custom,
}

/// Model information.
#[derive(Debug, Clone)]
pub struct LlmModel {
    pub id: String,
    pub name: String,
    pub context_window: u32,
    pub supports_streaming: bool,
}

/// A completion reply.
#[derive(Debug, Clone)]
pub struct CompletionResponse {
    pub content: String,
    pub role: Role,
    pub finish_reason: Option<String>,
    pub usage: Option<Usage>,
}

/// Token usage information.
#[derive(Debug, Clone, Copy, PartialEq, Eq, Structural)]
pub struct Usage {
    pub prompt_tokens: u32,
    pub completion_tokens: u32,
    pub total_tokens: u32,
}

/// One chunk of a streamed completion.
#[derive(Debug, Clone)]
pub struct CompletionChunk {
    pub content: String,
    pub finish_reason: Option<String>,
}

/// The stand-in provider: replies deterministically, for tests and
/// demonstrations.
#[derive(Debug)]
pub struct MockLlmProvider {
    pub config: Option<LlmConfig>,
}

impl MockLlmProvider {
    /// Not yet initialized.
    pub fn new() -> (r: Self)
        ensures
            r.config is None,
    {
        MockLlmProvider { config: None }
    }

    /// Stores the configuration.
    pub fn initialize(&mut self, config: LlmConfig)
        ensures
            final(self).config matches Some(c) && c.model@ == config.model@ && c.provider
                == config.provider,
    {
        self.config = Some(config);
    }

    /// Whether a configuration was stored.
    pub fn is_initialized(&self) -> (r: bool)
        ensures
            r == (self.config is Some),
    {
        self.config.is_some()
    }

    /// The provider's name.
    pub fn provider_name(&self) -> (r: &str)
        ensures
            r@ == "Mock Provider"@,
    {
        "Mock Provider"
    }

    /// The reply to a conversation: an echo of the last message, or of
    /// nothing when the conversation is empty.
    pub fn complete(&self, messages: &Vec<Message>) -> (r: CompletionResponse)
        ensures
            r.content@ == "Mock response to: "@ + (if messages@.len() == 0 {
                ""@
            } else {
                messages@.last().content@
            }),
            r.role == Role::Assistant,
            r.finish_reason matches Some(f) && f@ == "stop"@,
            r.usage == Some(Usage { prompt_tokens: 10u32, completion_tokens: 20u32, total_tokens: 30u32 }),
    {
        let content = if messages.len() == 0 {
            let c = "Mock response to: ".to_owned().concat("");
            proof {
                reveal_strlit("");
                assert(c@ =~= "Mock response to: "@ + ""@);
            }
            c
        } else {
            "Mock response to: ".to_owned().concat(messages[messages.len() - 1].content.as_str())
        };
        CompletionResponse {
            content,
            role: Role::Assistant,
            finish_reason: Some("stop".to_owned()),
            usage: Some(Usage { prompt_tokens: 10, completion_tokens: 20, total_tokens: 30 }),
        }
    }

    /// The chunks of a streamed reply, in order.
    pub fn stream_chunks(&self) -> (r: Vec<CompletionChunk>)
        ensures
            r@.len() == 3,
            r@[0].content@ == "Mock "@ && r@[0].finish_reason is None,
            r@[1].content@ == "streaming "@ && r@[1].finish_reason is None,
            r@[2].content@ == "response"@ && (r@[2].finish_reason matches Some(f) && f@
                == "stop"@),
    {
        let mut out: Vec<CompletionChunk> = Vec::new();
        out.push(CompletionChunk { content: "Mock ".to_owned(), finish_reason: None });
        out.push(CompletionChunk { content: "streaming ".to_owned(), finish_reason: None });
        out.push(
            CompletionChunk { content: "response".to_owned(), finish_reason: Some("stop".to_owned()) },
        );
        out
    }

    /// The one model on offer.
    pub fn available_models(&self) -> (r: Vec<LlmModel>)
        ensures
            r@.len() == 1,
            r@[0].id@ == "mock-model"@,
            r@[0].name@ == "Mock Model"@,
            r@[0].context_window == 4096,
            r@[0].supports_streaming == true,
    {
        let mut out: Vec<LlmModel> = Vec::new();
        out.push(
            LlmModel {
                id: "mock-model".to_owned(),
                name: "Mock Model".to_owned(),
                context_window: 4096,
                supports_streaming: true,
            },
        );
        out
    }
}

} // verus!
