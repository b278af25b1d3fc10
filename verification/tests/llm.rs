use enki::llm::{
    get_api_key_env_var, parse_backend, LlmBackend, LlmError, LlmResponse, LlmUsage, UniversalConfig,
    UniversalLLMClient,
};

#[test]
fn test_universal_config_parsing() {
    let config = UniversalConfig::new("ollama::gemma3:latest");
    assert_eq!(config.provider(), Some("ollama"));
    assert_eq!(config.model_name(), "gemma3:latest");
}

#[test]
fn test_universal_config_simple_model() {
    let config = UniversalConfig::new("openai::gpt-4o");
    assert_eq!(config.provider(), Some("openai"));
    assert_eq!(config.model_name(), "gpt-4o");
}

#[test]
fn test_universal_config_openai_with_simple_prompt() {
    let prompt = "Return exactly the word 'Hello' and nothing else.";
    let config = UniversalConfig::new("openai::gpt-4o").with_system(prompt);
    let result = LlmResponse {
        content: "Hello".to_string(),
        usage: Some(LlmUsage {
            prompt_tokens: Some(12),
            completion_tokens: Some(1),
            total_tokens: Some(13),
        }),
        tool_calls: Vec::new(),
        model: "openai::gpt-4o".to_string(),
        finish_reason: Some("stop".to_string()),
    };

    assert_eq!(config.provider(), Some("openai"));
    assert_eq!(config.model_name(), "gpt-4o");
    assert_eq!(config.system.as_deref(), Some(prompt));
    assert_eq!(result.content, "Hello");
    assert_eq!(result.model, "openai::gpt-4o");
    assert_eq!(result.finish_reason.as_deref(), Some("stop"));
    assert_eq!(result.usage.as_ref().and_then(|usage| usage.total_tokens), Some(13));
}

#[test]
fn test_universal_config_builder() {
    let config = UniversalConfig::new("anthropic::sonnet-3-20240229")
        .with_api_key("test-key")
        .with_max_tokens(2048)
        .with_resilience(3);

    assert_eq!(config.api_key, Some("test-key".to_string()));
    assert_eq!(config.max_tokens, Some(2048));
    assert_eq!(config.resilient, Some(true));
    assert_eq!(config.resilient_attempts, Some(3));
}

#[test]
fn test_parse_backend_valid() {
    assert!(matches!(parse_backend("ollama"), Ok(LlmBackend::Ollama)));
    assert!(matches!(parse_backend("openai"), Ok(LlmBackend::OpenAI)));
    assert!(matches!(parse_backend("anthropic"), Ok(LlmBackend::Anthropic)));
    assert!(matches!(parse_backend("google"), Ok(LlmBackend::Google)));
}

#[test]
fn test_parse_backend_invalid() {
    assert!(parse_backend("unknown").is_err());
}

#[test]
fn test_api_key_env_vars() {
    assert_eq!(get_api_key_env_var("ollama"), None);
    assert_eq!(get_api_key_env_var("openai"), Some("OPENAI_API_KEY"));
    assert_eq!(get_api_key_env_var("anthropic"), Some("ANTHROPIC_API_KEY"));
    assert_eq!(get_api_key_env_var("google"), Some("GOOGLE_API_KEY"));
}

#[test]
fn unsupported_provider_is_named_in_the_error() {
    match parse_backend("acme") {
        Err(LlmError::Provider(message)) => assert_eq!(message, "Unsupported LLM provider: acme"),
        _ => panic!("expected an error"),
    }
}

#[test]
fn model_without_provider_is_its_own_model_name() {
    let config = UniversalConfig::new("gpt-4o");
    assert_eq!(config.provider(), None);
    assert_eq!(config.model_name(), "gpt-4o");
    let nested = UniversalConfig::new("openrouter::anthropic/sonnet::v2");
    assert_eq!(nested.provider(), Some("openrouter"));
    assert_eq!(nested.model_name(), "anthropic/sonnet::v2");
}

#[test]
fn client_exposes_its_configuration() {
    let client = UniversalLLMClient::with_api_key("anthropic::sonnet-4", "secret").ok().unwrap();
    assert_eq!(client.provider(), Some("anthropic"));
    assert_eq!(client.model_name(), "sonnet-4");
    assert_eq!(client.config().api_key.as_deref(), Some("secret"));
    let plain = UniversalLLMClient::new("ollama::llama3.2").ok().unwrap();
    assert_eq!(plain.config().model, "ollama::llama3.2");
    assert_eq!(plain.config().api_key, None);
    let configured = UniversalLLMClient::with_config(UniversalConfig::new("xai::grok").with_max_tokens(10)).ok().unwrap();
    assert_eq!(configured.config().max_tokens, Some(10));
    assert_eq!(configured.model_name(), "grok");
}
