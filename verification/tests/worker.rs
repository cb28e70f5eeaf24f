use domain_suggest::domain::{Availability, DomainCheckerKind, DomainStatus};
use domain_suggest::llm::openrouter::api_error_message;
use domain_suggest::ui::board::WorkerResult;
use domain_suggest::llm::LlmProviderKind;
use domain_suggest::ui::input_panel::InputPanelState;
use domain_suggest::ui::settings_panel::SettingsState;
use domain_suggest::worker::{
    after_generation, check_results, checker_init_error, checker_plan, generate_command, provider_plan,
    CheckerPlan, ProviderPlan, WorkerCommand,
};

#[test]
fn checker_plans() {
    assert!(matches!(
        checker_plan(DomainCheckerKind::WhoisFreaks, Some("k".to_string())),
        CheckerPlan::WhoisFreaks(k) if k == "k"
    ));
    assert!(matches!(checker_plan(DomainCheckerKind::WhoisFreaks, Some(String::new())), CheckerPlan::Rdap));
    assert!(matches!(checker_plan(DomainCheckerKind::WhoisFreaks, None), CheckerPlan::Rdap));
    assert!(matches!(checker_plan(DomainCheckerKind::Rdap, Some("k".to_string())), CheckerPlan::Rdap));
    assert!(matches!(checker_plan(DomainCheckerKind::Dns, None), CheckerPlan::Dns));
}

#[test]
fn provider_plans() {
    match provider_plan(&LlmProviderKind::OpenRouter, Some("key".to_string()), Some("m".to_string()), None) {
        Ok(ProviderPlan::OpenRouter { key, model }) => {
            assert_eq!(key, "key");
            assert_eq!(model, Some("m".to_string()));
        }
        other => panic!("unexpected {:?}", other),
    }
    let err = provider_plan(&LlmProviderKind::OpenRouter, Some(String::new()), None, None).unwrap_err();
    assert_eq!(err, "OpenRouter API key is required. Get one free at openrouter.ai");
    assert!(provider_plan(&LlmProviderKind::OpenRouter, None, None, None).is_err());
    match provider_plan(&LlmProviderKind::Ollama, None, None, Some("llama3".to_string())) {
        Ok(ProviderPlan::Ollama { model }) => assert_eq!(model, Some("llama3".to_string())),
        other => panic!("unexpected {:?}", other),
    }
}

#[test]
fn generate_commands() {
    let mut input = InputPanelState::default();
    input.keywords = "cloud".to_string();
    let mut settings = SettingsState::with_keys("or".to_string(), "wf".to_string());
    match generate_command(&input, &settings).unwrap() {
        WorkerCommand::GenerateAndCheck { request, tlds, llm_kind, openrouter_key, openrouter_model, ollama_model, checker_kind, whoisfreaks_key } => {
            assert_eq!(request.keywords, "cloud");
            assert_eq!(tlds.len(), 11);
            assert_eq!(llm_kind, LlmProviderKind::OpenRouter);
            assert_eq!(openrouter_key, Some("or".to_string()));
            assert_eq!(openrouter_model, Some("openrouter/auto".to_string()));
            assert_eq!(ollama_model, Some("llama3".to_string()));
            assert_eq!(checker_kind, DomainCheckerKind::WhoisFreaks);
            assert_eq!(whoisfreaks_key, Some("wf".to_string()));
        }
        other => panic!("unexpected {:?}", other),
    }
    for t in settings.active_tlds.iter_mut() {
        t.1 = false;
    }
    assert_eq!(
        generate_command(&input, &settings).unwrap_err(),
        "No TLDs selected! Enable at least one in Settings."
    );
}

#[test]
fn results_after_generation() {
    let tlds = vec![".com".to_string(), ".io".to_string()];
    let (first, domains) = after_generation::<u32>(Ok(vec!["Nexora".to_string(), " ".to_string()]), &tlds);
    assert!(matches!(first, WorkerResult::Suggestions(ref n) if n == &vec!["Nexora".to_string(), " ".to_string()]));
    assert_eq!(domains, Some(vec!["nexora.com".to_string(), "nexora.io".to_string()]));
    let (first, domains) = after_generation::<u32>(Err("timeout".to_string()), &tlds);
    assert!(matches!(first, WorkerResult::Error(ref m) if m == "LLM generation failed: timeout"));
    assert_eq!(domains, None);
}

#[test]
fn checker_setup_errors() {
    assert_eq!(checker_init_error(&CheckerPlan::Rdap, "x"), Some("Failed to init RDAP checker: x".to_string()));
    assert_eq!(checker_init_error(&CheckerPlan::Dns, "y"), Some("Failed to init DNS checker: y".to_string()));
    assert_eq!(checker_init_error(&CheckerPlan::WhoisFreaks("k".to_string()), "z"), None);
}

#[test]
fn results_of_one_check() {
    let ok = DomainStatus::<u32> { domain: "a.com".to_string(), availability: Availability::Taken, price: Some(3) };
    let r = check_results("a.com".to_string(), Ok(ok), 1, 4);
    assert_eq!(r.len(), 2);
    assert!(matches!(&r[0], WorkerResult::DomainResult(s) if s.domain == "a.com" && s.price == Some(3)));
    assert!(matches!(r[1], WorkerResult::Progress { checked: 1, total: 4 }));
    let r = check_results::<u32>("b.io".to_string(), Err("refused".to_string()), 2, 4);
    assert!(matches!(&r[0], WorkerResult::DomainResult(s)
        if s.domain == "b.io" && matches!(&s.availability, Availability::Error(m) if m == "refused") && s.price.is_none()));
    assert!(matches!(r[1], WorkerResult::Progress { checked: 2, total: 4 }));
}

#[test]
fn openrouter_error_text() {
    assert_eq!(api_error_message(401, "bad key"), "OpenRouter API error (401 Unauthorized): bad key");
    assert_eq!(api_error_message(599, ""), "OpenRouter API error (599 <unknown status code>): ");
}
