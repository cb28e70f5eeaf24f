use domain_suggest::llm::ollama::{
    after_compatible_call, compatible_reply_content, compatible_url, model_names, native_error,
    native_reply_content, native_reply_readable, native_url, ModelInfo, OllamaStep,
    DEFAULT_BASE_URL, DEFAULT_MODEL,
};
use domain_suggest::llm::openrouter::{first_choice_content, select_free_models, FREE_MODELS};
use domain_suggest::llm::{BrandPersonality, CreativityMode, LlmProviderKind, SuggestionRequest};

#[test]
fn personality_labels() {
    let labels: Vec<&str> = BrandPersonality::ALL.iter().map(|p| p.label()).collect();
    assert_eq!(
        labels,
        vec!["Minimalist", "Bold", "Traditional", "Playful", "Luxurious", "Technical", "Friendly"]
    );
    assert_eq!(BrandPersonality::default(), BrandPersonality::Bold);
}

#[test]
fn defaults() {
    assert_eq!(CreativityMode::default(), CreativityMode::Creative);
    assert_eq!(LlmProviderKind::default(), LlmProviderKind::OpenRouter);
    assert_eq!(LlmProviderKind::OpenRouter.label(), "OpenRouter (Free Tier)");
    assert_eq!(LlmProviderKind::Ollama.label(), "Ollama (Local)");
    let r = SuggestionRequest::default();
    assert_eq!(r.keywords, "");
    assert_eq!(r.industry, "");
    assert_eq!(r.personality, BrandPersonality::Bold);
    assert_eq!(r.max_length, 14);
    assert_eq!(r.count, 15);
    assert_eq!(r.creativity, CreativityMode::Creative);
    assert_eq!(DEFAULT_BASE_URL, "http://localhost:11434");
    assert_eq!(DEFAULT_MODEL, "llama3");
}

#[test]
fn free_model_selection() {
    let listed = vec![
        ("meta/llama:free".to_string(), "Llama".to_string()),
        ("openai/gpt-4".to_string(), "GPT-4".to_string()),
        ("google/gemma-2-9b-it:free".to_string(), "Gemma 2".to_string()),
        ("x/free-but-not-suffix".to_string(), "X".to_string()),
        ("qwen/q:free".to_string(), "Qwen".to_string()),
    ];
    let got = select_free_models(&listed);
    assert_eq!(
        got,
        vec![
            ("openrouter/auto".to_string(), "Auto (Best Free)".to_string()),
            ("meta/llama:free".to_string(), "Llama (Free)".to_string()),
            ("qwen/q:free".to_string(), "Qwen (Free)".to_string()),
        ]
    );
    assert_eq!(select_free_models(&vec![]).len(), 1);
    assert_eq!(FREE_MODELS[0], ("openrouter/auto", "Auto (Best Free)"));
}

#[test]
fn reply_contents() {
    assert_eq!(first_choice_content(&vec!["a".to_string(), "b".to_string()]), "a");
    assert_eq!(first_choice_content(&vec![]), "");
    let choices = Some(vec!["choice".to_string()]);
    let message = Some("message".to_string());
    assert_eq!(compatible_reply_content(&choices, &message), "choice");
    assert_eq!(native_reply_content(&choices, &message), "message");
    assert_eq!(compatible_reply_content(&Some(vec![]), &message), "message");
    assert_eq!(native_reply_content(&choices, &None), "choice");
    assert_eq!(compatible_reply_content(&None, &None), "");
    assert_eq!(native_reply_content(&Some(vec![]), &None), "");
}

#[test]
fn listed_model_names() {
    let models = vec![ModelInfo { name: "llama3".to_string() }, ModelInfo { name: "qwen".to_string() }];
    assert_eq!(model_names(&models), vec!["llama3", "qwen"]);
}

#[test]
fn ollama_endpoint_fallback() {
    assert_eq!(after_compatible_call(Some(200)), OllamaStep::ReadCompatibleReply);
    assert_eq!(after_compatible_call(Some(204)), OllamaStep::ReadCompatibleReply);
    assert_eq!(after_compatible_call(Some(404)), OllamaStep::CallNativeEndpoint);
    assert_eq!(after_compatible_call(Some(500)), OllamaStep::CallNativeEndpoint);
    assert_eq!(after_compatible_call(None), OllamaStep::CallNativeEndpoint);
    assert!(native_reply_readable(200));
    assert!(!native_reply_readable(503));
    assert_eq!(native_error("model not found"), "Ollama error: model not found");
    assert_eq!(compatible_url(DEFAULT_BASE_URL), "http://localhost:11434/v1/chat/completions");
    assert_eq!(native_url(DEFAULT_BASE_URL), "http://localhost:11434/api/chat");
}
