//! Commands for the background worker and the decisions it takes on them.
//!
//! Pipeline: generate suggestions, expand them with the TLDs, check the
//! availability of every domain.

use vstd::prelude::*;
use vstd::string::StringExecFns;
use crate::domain::DomainCheckerKind;
use crate::llm::{LlmProviderKind, SuggestionRequest};
use crate::ui::input_panel::InputPanelState;
use crate::ui::settings_panel::{model_at, tlds_to_check, SettingsState};
use crate::ui::board::WorkerResult;
use crate::domain::{AvailabilityView, DomainStatus};
use crate::domain::tld::{expand, expansion};

verus! {

/// Commands from the interface to the worker.
#[derive(Debug)]
pub enum WorkerCommand {
    /// Generate domain suggestions from the model, then check availability.
    GenerateAndCheck {
        request: SuggestionRequest,
        tlds: Vec<String>,
        llm_kind: LlmProviderKind,
        openrouter_key: Option<String>,
        openrouter_model: Option<String>,
        ollama_model: Option<String>,
        checker_kind: DomainCheckerKind,
        whoisfreaks_key: Option<String>,
    },
    /// Check availability for manually entered domains.
    CheckDomains {
        domains: Vec<String>,
        checker_kind: DomainCheckerKind,
        whoisfreaks_key: Option<String>,
    },
    /// Fetch the latest free OpenRouter models.
    FetchOpenRouterModels,
}

/// The lookup service that checks the domains.
#[derive(Debug)]
pub enum CheckerPlan {
    /// WhoisFreaks, with its API key.
    WhoisFreaks(String),
    /// Direct RDAP lookups.
    Rdap,
    /// DNS-over-HTTPS lookups.
    Dns,
}

/// Whether an optional key is present and non-empty.
pub open spec fn has_key(key: Option<String>) -> bool {
    key matches Some(k) && k@.len() > 0
}

/// The lookup service for a checker kind: WhoisFreaks needs a non-empty key
/// and falls back to RDAP without one.
pub fn checker_plan(kind: DomainCheckerKind, whoisfreaks_key: Option<String>) -> (r: CheckerPlan)
    ensures
        kind == DomainCheckerKind::WhoisFreaks && has_key(whoisfreaks_key) ==> r
            == CheckerPlan::WhoisFreaks(whoisfreaks_key->0),
        kind == DomainCheckerKind::WhoisFreaks && !has_key(whoisfreaks_key) ==> r is Rdap,
        kind == DomainCheckerKind::Rdap ==> r is Rdap,
        kind == DomainCheckerKind::Dns ==> r is Dns,
{
    match kind {
        DomainCheckerKind::WhoisFreaks => match whoisfreaks_key {
            Some(k) => {
                if k.as_str().is_empty() {
                    CheckerPlan::Rdap
                } else {
                    CheckerPlan::WhoisFreaks(k)
                }
            },
            None => CheckerPlan::Rdap,
        },
        DomainCheckerKind::Rdap => CheckerPlan::Rdap,
        DomainCheckerKind::Dns => CheckerPlan::Dns,
    }
}

/// The model backend that generates the suggestions.
#[derive(Debug)]
pub enum ProviderPlan {
    /// OpenRouter, with its API key and optional model id.
    OpenRouter { key: String, model: Option<String> },
    /// A local Ollama instance, with an optional model name.
    Ollama { model: Option<String> },
}

/// The message when OpenRouter is chosen without an API key.
pub open spec fn missing_key_message() -> Seq<char> {
    "OpenRouter API key is required. Get one free at openrouter.ai"@
}

/// The model backend for a generation command: OpenRouter needs a
/// non-empty key and is refused without one.
pub fn provider_plan(
    llm_kind: &LlmProviderKind,
    openrouter_key: Option<String>,
    openrouter_model: Option<String>,
    ollama_model: Option<String>,
) -> (r: Result<ProviderPlan, String>)
    ensures
        *llm_kind == LlmProviderKind::OpenRouter && has_key(openrouter_key) ==> r == Ok::<
            ProviderPlan,
            String,
        >(ProviderPlan::OpenRouter { key: openrouter_key->0, model: openrouter_model }),
        *llm_kind == LlmProviderKind::OpenRouter && !has_key(openrouter_key) ==> (r matches Err(e)
            && e@ == missing_key_message()),
        *llm_kind == LlmProviderKind::Ollama ==> r == Ok::<ProviderPlan, String>(
            ProviderPlan::Ollama { model: ollama_model },
        ),
{
    match llm_kind {
        LlmProviderKind::OpenRouter => match openrouter_key {
            Some(k) => {
                if k.as_str().is_empty() {
                    Err(String::from_str("OpenRouter API key is required. Get one free at openrouter.ai"))
                } else {
                    Ok(ProviderPlan::OpenRouter { key: k, model: openrouter_model })
                }
            },
            None => Err(String::from_str("OpenRouter API key is required. Get one free at openrouter.ai")),
        },
        LlmProviderKind::Ollama => Ok(ProviderPlan::Ollama { model: ollama_model }),
    }
}

/// The message when no TLD is selected.
pub open spec fn no_tlds_message() -> Seq<char> {
    "No TLDs selected! Enable at least one in Settings."@
}

/// `c` is the generate-and-check command for the input and settings: the
/// input's request, the TLDs to check, and the backend, keys and models of
/// the settings.
pub open spec fn is_generate_command(c: WorkerCommand, input: InputPanelState, settings: SettingsState) -> bool {
    match c {
        WorkerCommand::GenerateAndCheck {
            request,
            tlds,
            llm_kind,
            openrouter_key,
            openrouter_model,
            ollama_model,
            checker_kind,
            whoisfreaks_key,
        } => {
            &&& request.keywords == input.keywords
            &&& request.industry == input.industry
            &&& request.personality == input.personality
            &&& request.max_length == input.max_length
            &&& request.count == input.count
            &&& request.creativity == input.creativity
            &&& tlds.deep_view() == tlds_to_check(
                settings.active_tlds.deep_view(),
                settings.custom_tld@,
                settings.custom_tld_enabled,
            )
            &&& llm_kind == settings.llm_kind
            &&& openrouter_key == Some(settings.openrouter_key)
            &&& openrouter_model matches Some(m) && m@ == model_at(
                settings.openrouter_models.deep_view(),
                settings.openrouter_model_idx as int,
            )
            &&& ollama_model == Some(settings.ollama_model)
            &&& checker_kind == settings.checker_kind
            &&& whoisfreaks_key == Some(settings.whoisfreaks_key)
        },
        _ => false,
    }
}

/// The generate-and-check command carries the request the input panel
/// describes, field for field (the keywords, industry, personality, maximum
/// length, count and creativity chosen there), and the settings' backends
/// and keys.
pub proof fn law_generate_command_carries_input(c: WorkerCommand, input: InputPanelState, settings: SettingsState)
    requires
        is_generate_command(c, input, settings),
    ensures
        c matches WorkerCommand::GenerateAndCheck { request, llm_kind, checker_kind, openrouter_key, whoisfreaks_key, .. }
            && request.keywords == input.keywords && request.industry == input.industry
            && request.personality == input.personality && request.max_length == input.max_length
            && request.count == input.count && request.creativity == input.creativity
            && llm_kind == settings.llm_kind && checker_kind == settings.checker_kind
            && openrouter_key == Some(settings.openrouter_key)
            && whoisfreaks_key == Some(settings.whoisfreaks_key),
{
}

/// The generate-and-check command for the current input and settings;
/// refused when no TLD is selected.
pub fn generate_command(input: &InputPanelState, settings: &SettingsState) -> (r: Result<
    WorkerCommand,
    String,
>)
    ensures
        tlds_to_check(
            settings.active_tlds.deep_view(),
            settings.custom_tld@,
            settings.custom_tld_enabled,
        ).len() == 0 ==> (r matches Err(e) && e@ == no_tlds_message()),
        tlds_to_check(
            settings.active_tlds.deep_view(),
            settings.custom_tld@,
            settings.custom_tld_enabled,
        ).len() > 0 ==> (r matches Ok(c) && is_generate_command(c, *input, *settings)),
        r matches Ok(WorkerCommand::GenerateAndCheck { request, .. }) ==> (request.keywords == input.keywords
            && request.industry == input.industry && request.personality == input.personality
            && request.max_length == input.max_length && request.count == input.count
            && request.creativity == input.creativity),
{
    let tlds = settings.enabled_tlds();
    if tlds.len() == 0 {
        return Err(String::from_str("No TLDs selected! Enable at least one in Settings."));
    }
    let llm_kind = match settings.llm_kind {
        LlmProviderKind::OpenRouter => LlmProviderKind::OpenRouter,
        LlmProviderKind::Ollama => LlmProviderKind::Ollama,
    };
    Ok(
        WorkerCommand::GenerateAndCheck {
            request: input.to_request(),
            tlds,
            llm_kind,
            openrouter_key: Some(settings.openrouter_key.clone()),
            openrouter_model: Some(settings.selected_openrouter_model()),
            ollama_model: Some(settings.ollama_model.clone()),
            checker_kind: settings.checker_kind,
            whoisfreaks_key: Some(settings.whoisfreaks_key.clone()),
        },
    )
}

/// What the worker sends once the model has answered, and the domains it
/// then checks: the suggestions and their expansion with the TLDs, or, when
/// generation failed, the error "LLM generation failed: " and the cause, and
/// nothing to check.
pub fn after_generation<P>(outcome: Result<Vec<String>, String>, tlds: &Vec<String>) -> (r: (
    WorkerResult<P>,
    Option<Vec<String>>,
))
    ensures
        match outcome {
            Ok(names) => {
                &&& r.0 matches WorkerResult::Suggestions(n) && n.deep_view() == names.deep_view()
                &&& r.1 matches Some(d) && d.deep_view() == expansion(names.deep_view(), tlds.deep_view())
            },
            Err(e) => {
                &&& r.0 matches WorkerResult::Error(m) && m@ == "LLM generation failed: "@ + e@
                &&& r.1 is None
            },
        },
{
    match outcome {
        Ok(names) => {
            let domains = expand(names.as_slice(), tlds.as_slice());
            (WorkerResult::Suggestions(names), Some(domains))
        },
        Err(e) => {
            let mut m = String::from_str("LLM generation failed: ");
            m.append(e.as_str());
            (WorkerResult::Error(m), None)
        },
    }
}

/// The error when the lookup service of `plan` could not be set up: "Failed
/// to init RDAP checker: " or "Failed to init DNS checker: " and the cause.
/// Setting up WhoisFreaks cannot fail, so it has no such error (`None`).
pub fn checker_init_error(plan: &CheckerPlan, cause: &str) -> (r: Option<String>)
    ensures
        match plan {
            CheckerPlan::WhoisFreaks(_) => r is None,
            CheckerPlan::Rdap => r matches Some(m) && m@ == "Failed to init RDAP checker: "@ + cause@,
            CheckerPlan::Dns => r matches Some(m) && m@ == "Failed to init DNS checker: "@ + cause@,
        },
{
    match plan {
        CheckerPlan::WhoisFreaks(_) => None,
        CheckerPlan::Rdap => {
            let mut m = String::from_str("Failed to init RDAP checker: ");
            m.append(cause);
            Some(m)
        },
        CheckerPlan::Dns => {
            let mut m = String::from_str("Failed to init DNS checker: ");
            m.append(cause);
            Some(m)
        },
    }
}

/// What the worker sends for one checked domain, in order: its status (or,
/// when the check failed, an error status with the cause), then the progress
/// `done` of `total`.
pub fn check_results<P>(
    domain: String,
    outcome: Result<DomainStatus<P>, String>,
    done: usize,
    total: usize,
) -> (r: Vec<WorkerResult<P>>)
    ensures
        r@.len() == 2,
        (match outcome {
            Ok(st) => r@[0] == WorkerResult::DomainResult(st),
            Err(e) => (r@[0] matches WorkerResult::DomainResult(st) && st.domain == domain
                && st.availability@ == AvailabilityView::Error(e@) && st.price.is_none()),
        }),
        r@[1] == (WorkerResult::<P>::Progress { checked: done, total }),
{
    let status = match outcome {
        Ok(st) => st,
        Err(e) => DomainStatus::error(domain, e),
    };
    let mut r: Vec<WorkerResult<P>> = Vec::new();
    r.push(WorkerResult::DomainResult(status));
    r.push(WorkerResult::Progress { checked: done, total });
    r
}

} // verus!
