//! Model selection for the universal LLM client: a model is named
//! `provider::model` (`openai::gpt-4o`, `ollama::gemma3:latest`), the provider
//! picks the backend and the environment variable that holds its API key.
use crate::text::{cat3, chars_of, find, first_occurrence};
use vstd::prelude::*;

verus! {

/// The providers the client can talk to.
#[derive(PartialEq, Eq, Structural, Debug, Clone, Copy)]
pub enum LlmBackend {
    OpenAI,
    Anthropic,
    Ollama,
    Google,
    DeepSeek,
    XAI,
    Groq,
    Mistral,
    Cohere,
    OpenRouter,
}

pub enum LlmError {
    Provider(String),
}

/// Token counts reported with a completion.
pub struct LlmUsage {
    pub prompt_tokens: Option<u32>,
    pub completion_tokens: Option<u32>,
    pub total_tokens: Option<u32>,
}

/// One completion: its text, the tool calls it asked for (each a JSON text),
/// the model that produced it and why it stopped.
pub struct LlmResponse {
    pub content: String,
    pub usage: Option<LlmUsage>,
    pub tool_calls: Vec<String>,
    pub model: String,
    pub finish_reason: Option<String>,
}

/// Settings of a client: the `provider::model` name and the optional
/// overrides a caller sets with the builder methods.
pub struct UniversalConfig {
    pub model: String,
    pub api_key: Option<String>,
    pub max_tokens: Option<u32>,
    pub system: Option<String>,
    pub resilient: Option<bool>,
    pub resilient_attempts: Option<usize>,
}

/// The separator between provider and model.
pub open spec fn provider_separator() -> Seq<char> {
    seq![':', ':']
}

/// The provider part of a model name: what precedes the first `::`, if any.
pub open spec fn provider_spec(model: Seq<char>) -> Option<Seq<char>> {
    match first_occurrence(model, provider_separator()) {
        Some(i) => Some(model.subrange(0, i)),
        None => None,
    }
}

/// The model part of a model name: what follows the first `::`, or the whole
/// name when there is none.
pub open spec fn model_name_spec(model: Seq<char>) -> Seq<char> {
    match first_occurrence(model, provider_separator()) {
        Some(i) => model.subrange(i + 2, model.len() as int),
        None => model,
    }
}

/// The backend a provider name selects.
pub open spec fn backend_spec(name: Seq<char>) -> Option<LlmBackend> {
    if name == "openai"@ {
        Some(LlmBackend::OpenAI)
    } else if name == "anthropic"@ {
        Some(LlmBackend::Anthropic)
    } else if name == "ollama"@ {
        Some(LlmBackend::Ollama)
    } else if name == "google"@ {
        Some(LlmBackend::Google)
    } else if name == "deepseek"@ {
        Some(LlmBackend::DeepSeek)
    } else if name == "xai"@ {
        Some(LlmBackend::XAI)
    } else if name == "groq"@ {
        Some(LlmBackend::Groq)
    } else if name == "mistral"@ {
        Some(LlmBackend::Mistral)
    } else if name == "cohere"@ {
        Some(LlmBackend::Cohere)
    } else if name == "openrouter"@ {
        Some(LlmBackend::OpenRouter)
    } else {
        None
    }
}

/// The environment variable that holds a provider's API key; a local Ollama
/// server needs none.
pub open spec fn api_key_var_spec(provider: Seq<char>) -> Option<Seq<char>> {
    if provider == "openai"@ {
        Some("OPENAI_API_KEY"@)
    } else if provider == "anthropic"@ {
        Some("ANTHROPIC_API_KEY"@)
    } else if provider == "google"@ {
        Some("GOOGLE_API_KEY"@)
    } else if provider == "deepseek"@ {
        Some("DEEPSEEK_API_KEY"@)
    } else if provider == "xai"@ {
        Some("XAI_API_KEY"@)
    } else if provider == "groq"@ {
        Some("GROQ_API_KEY"@)
    } else if provider == "mistral"@ {
        Some("MISTRAL_API_KEY"@)
    } else if provider == "cohere"@ {
        Some("COHERE_API_KEY"@)
    } else if provider == "openrouter"@ {
        Some("OPENROUTER_API_KEY"@)
    } else {
        None
    }
}

pub open spec fn unsupported_provider_message(name: Seq<char>) -> Seq<char> {
    "Unsupported LLM provider: "@ + name
}

/// The backend for a provider name, or an error naming the provider.
pub fn parse_backend(name: &str) -> (res: Result<LlmBackend, LlmError>)
    ensures
        match res {
            Ok(b) => backend_spec(name@) == Some(b),
            Err(LlmError::Provider(m)) => backend_spec(name@) is None && m@
                == unsupported_provider_message(name@),
        },
{
    let s = name.to_owned();
    if s == "openai".to_owned() {
        Ok(LlmBackend::OpenAI)
    } else if s == "anthropic".to_owned() {
        Ok(LlmBackend::Anthropic)
    } else if s == "ollama".to_owned() {
        Ok(LlmBackend::Ollama)
    } else if s == "google".to_owned() {
        Ok(LlmBackend::Google)
    } else if s == "deepseek".to_owned() {
        Ok(LlmBackend::DeepSeek)
    } else if s == "xai".to_owned() {
        Ok(LlmBackend::XAI)
    } else if s == "groq".to_owned() {
        Ok(LlmBackend::Groq)
    } else if s == "mistral".to_owned() {
        Ok(LlmBackend::Mistral)
    } else if s == "cohere".to_owned() {
        Ok(LlmBackend::Cohere)
    } else if s == "openrouter".to_owned() {
        Ok(LlmBackend::OpenRouter)
    } else {
        Err(LlmError::Provider(crate::text::concat("Unsupported LLM provider: ", name)))
    }
}

/// The name of the environment variable that holds the provider's API key.
pub fn get_api_key_env_var(provider: &str) -> (res: Option<&'static str>)
    ensures
        match res {
            Some(v) => api_key_var_spec(provider@) == Some(v@),
            None => api_key_var_spec(provider@) is None,
        },
{
    let s = provider.to_owned();
    if s == "openai".to_owned() {
        Some("OPENAI_API_KEY")
    } else if s == "anthropic".to_owned() {
        Some("ANTHROPIC_API_KEY")
    } else if s == "google".to_owned() {
        Some("GOOGLE_API_KEY")
    } else if s == "deepseek".to_owned() {
        Some("DEEPSEEK_API_KEY")
    } else if s == "xai".to_owned() {
        Some("XAI_API_KEY")
    } else if s == "groq".to_owned() {
        Some("GROQ_API_KEY")
    } else if s == "mistral".to_owned() {
        Some("MISTRAL_API_KEY")
    } else if s == "cohere".to_owned() {
        Some("COHERE_API_KEY")
    } else if s == "openrouter".to_owned() {
        Some("OPENROUTER_API_KEY")
    } else {
        None
    }
}

impl UniversalConfig {
    /// A configuration for `provider::model` with no overrides.
    pub fn new(provider_model: &str) -> (c: Self)
        ensures
            c.model@ == provider_model@,
            c.api_key is None,
            c.max_tokens is None,
            c.system is None,
            c.resilient is None,
            c.resilient_attempts is None,
    {
        UniversalConfig {
            model: provider_model.to_owned(),
            api_key: None,
            max_tokens: None,
            system: None,
            resilient: None,
            resilient_attempts: None,
        }
    }

    pub fn with_api_key(self, api_key: &str) -> (c: Self)
        ensures
            c.api_key matches Some(k) && k@ == api_key@,
            c.model == self.model,
            c.max_tokens == self.max_tokens,
            c.system == self.system,
            c.resilient == self.resilient,
            c.resilient_attempts == self.resilient_attempts,
    {
        UniversalConfig { api_key: Some(api_key.to_owned()), ..self }
    }

    pub fn with_system(self, system: &str) -> (c: Self)
        ensures
            c.system matches Some(s) && s@ == system@,
            c.model == self.model,
            c.api_key == self.api_key,
            c.max_tokens == self.max_tokens,
            c.resilient == self.resilient,
            c.resilient_attempts == self.resilient_attempts,
    {
        UniversalConfig { system: Some(system.to_owned()), ..self }
    }

    pub fn with_max_tokens(self, max_tokens: u32) -> (c: Self)
        ensures
            c.max_tokens == Some(max_tokens),
            c.model == self.model,
            c.api_key == self.api_key,
            c.system == self.system,
            c.resilient == self.resilient,
            c.resilient_attempts == self.resilient_attempts,
    {
        UniversalConfig { max_tokens: Some(max_tokens), ..self }
    }

    /// Retries failed requests up to `attempts` times.
    pub fn with_resilience(self, attempts: usize) -> (c: Self)
        ensures
            c.resilient == Some(true),
            c.resilient_attempts == Some(attempts),
            c.model == self.model,
            c.api_key == self.api_key,
            c.max_tokens == self.max_tokens,
            c.system == self.system,
    {
        UniversalConfig { resilient: Some(true), resilient_attempts: Some(attempts), ..self }
    }

    pub fn provider(&self) -> (res: Option<&str>)
        ensures
            match res {
                Some(p) => provider_spec(self.model@) == Some(p@),
                None => provider_spec(self.model@) is None,
            },
    {
        let chars = chars_of(self.model.as_str());
        let sep = chars_of("::");
        proof {
            reveal_strlit("::");
            assert(sep@ =~= provider_separator());
        }
        match find(&chars, &sep) {
            Some(i) => Some(self.model.as_str().substring_char(0, i)),
            None => None,
        }
    }

    pub fn model_name(&self) -> (res: &str)
        ensures
            res@ == model_name_spec(self.model@),
    {
        let m: &str = self.model.as_str();
        let chars = chars_of(m);
        let sep = chars_of("::");
        proof {
            reveal_strlit("::");
            assert(sep@ =~= provider_separator());
        }
        let n = chars.len();
        let found = find(&chars, &sep);
        match found {
            Some(i) => {
                assert(i + 2 <= n);
                m.substring_char(i + 2, n)
            },
            None => m,
        }
    }

}

/// A client for one model, configured by a `UniversalConfig`.
pub struct UniversalLLMClient {
    config: UniversalConfig,
}

impl UniversalLLMClient {
    pub closed spec fn config_view(&self) -> UniversalConfig {
        self.config
    }

    pub fn new(provider_model: &str) -> (res: Result<Self, LlmError>)
        ensures
            res matches Ok(c) && c.config_view().model@ == provider_model@
                && c.config_view().api_key is None && c.config_view().max_tokens is None
                && c.config_view().system is None && c.config_view().resilient is None
                && c.config_view().resilient_attempts is None,
    {
        Ok(UniversalLLMClient { config: UniversalConfig::new(provider_model) })
    }

    pub fn with_config(config: UniversalConfig) -> (res: Result<Self, LlmError>)
        ensures
            res matches Ok(c) && c.config_view() == config,
    {
        Ok(UniversalLLMClient { config })
    }

    pub fn with_api_key(provider_model: &str, api_key: &str) -> (res: Result<Self, LlmError>)
        ensures
            res matches Ok(c) && c.config_view().model@ == provider_model@
                && (c.config_view().api_key matches Some(k) && k@ == api_key@)
                && c.config_view().max_tokens is None && c.config_view().system is None
                && c.config_view().resilient is None && c.config_view().resilient_attempts is None,
    {
        Ok(UniversalLLMClient { config: UniversalConfig::new(provider_model).with_api_key(api_key) })
    }

    pub fn config(&self) -> (res: &UniversalConfig)
        ensures
            *res == self.config_view(),
    {
        &self.config
    }

    pub fn provider(&self) -> (res: Option<&str>)
        ensures
            match res {
                Some(p) => provider_spec(self.config_view().model@) == Some(p@),
                None => provider_spec(self.config_view().model@) is None,
            },
    {
        self.config.provider()
    }

    pub fn model_name(&self) -> (res: &str)
        ensures
            res@ == model_name_spec(self.config_view().model@),
    {
        self.config.model_name()
    }
}

/// A model name with a provider is the provider, `::` and the model part.
pub proof fn law_provider_model_roundtrip(model: Seq<char>)
    ensures
        provider_spec(model) matches Some(p) ==> p + provider_separator() + model_name_spec(model) == model,
        provider_spec(model) is None ==> model_name_spec(model) == model,
{
    crate::text::lemma_first_occurrence(model, provider_separator());
    if let Some(i) = first_occurrence(model, provider_separator()) {
        assert(model.subrange(i, i + 2) == provider_separator());
        assert(model.subrange(0, i) + provider_separator() + model.subrange(i + 2, model.len() as int) =~= model);
    }
}


impl UniversalLLMClient {
    /// What every completion of this build answers: no provider backend is
    /// built in, so the model cannot be reached.
    pub fn unavailable_error(&self) -> (res: LlmError)
        ensures
            res matches LlmError::Provider(m) && m@ == "UniversalLLMClient is unavailable on this target/build. Supply a custom LlmProvider or enable the `universal-llm-provider` feature for model `"@
                + self.config_view().model@ + "`."@,
    {
        LlmError::Provider(
            cat3(
                "UniversalLLMClient is unavailable on this target/build. Supply a custom LlmProvider or enable the `universal-llm-provider` feature for model `",
                self.config().model.as_str(),
                "`.",
            ),
        )
    }

    /// The provider name of this build's client.
    pub fn name(&self) -> (res: &'static str)
        ensures
            res@ == "unavailable"@,
    {
        "unavailable"
    }

    /// The models this build's client offers: none.
    pub fn available_models(&self) -> (res: Vec<&'static str>)
        ensures
            res@.len() == 0,
    {
        Vec::new()
    }
}

/// Why an agent cannot be built without a model provider of its own: this
/// build has none for `model`.
pub fn no_provider_error(model: &str) -> (res: String)
    ensures
        res@ == "No built-in LLM provider is available for model `"@ + model@
            + "`. Supply a custom LlmProvider or enable the `universal-llm-provider` feature."@,
{
    cat3(
        "No built-in LLM provider is available for model `",
        model,
        "`. Supply a custom LlmProvider or enable the `universal-llm-provider` feature.",
    )
}

} // verus!
