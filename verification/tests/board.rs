use domain_suggest::domain::{Availability, DomainStatus};
use domain_suggest::ui::board::{receive, receive_all, ResultsBoard, WorkerResult};
use domain_suggest::ui::settings_panel::SettingsState;
use domain_suggest::worker::WorkerCommand;

fn status(domain: &str, availability: Availability) -> DomainStatus<u32> {
    DomainStatus { domain: domain.to_string(), availability, price: None }
}

fn settings() -> SettingsState {
    SettingsState::with_keys("k".to_string(), String::new())
}

#[test]
fn domain_results_are_upserted() {
    let mut b: ResultsBoard<u32> = ResultsBoard::new();
    let mut s = settings();
    receive(&mut b, &mut s, WorkerResult::DomainResult(status("a.com", Availability::Pending)));
    receive(&mut b, &mut s, WorkerResult::DomainResult(status("b.io", Availability::Taken)));
    receive(&mut b, &mut s, WorkerResult::DomainResult(status("a.com", Availability::Available)));
    let r = b.results();
    assert_eq!(r.len(), 2);
    assert_eq!(r[0].domain, "a.com");
    assert!(matches!(r[0].availability, Availability::Available));
    assert_eq!(r[1].domain, "b.io");
    assert_eq!(b.available_count(), 1);
}

#[test]
fn busy_state_and_errors() {
    let mut b: ResultsBoard<u32> = ResultsBoard::new();
    let mut s = settings();
    let cmd = b.start_generation(Ok(WorkerCommand::FetchOpenRouterModels));
    assert!(cmd.is_some());
    assert!(b.is_busy());
    receive(&mut b, &mut s, WorkerResult::Suggestions(vec!["nexora".to_string()]));
    assert_eq!(b.suggestions(), &vec!["nexora".to_string()]);
    receive(&mut b, &mut s, WorkerResult::Progress { checked: 1, total: 4 });
    assert_eq!(b.progress(), Some((1, 4)));
    assert!(b.is_busy());
    receive(&mut b, &mut s, WorkerResult::Error("boom".to_string()));
    assert!(!b.is_busy());
    assert_eq!(b.error_message(), &Some("boom".to_string()));
    receive(&mut b, &mut s, WorkerResult::Suggestions(vec![]));
    assert_eq!(b.error_message(), &None);
    let refused = b.start_generation(Err("No TLDs selected! Enable at least one in Settings.".to_string()));
    assert!(refused.is_none());
    assert!(!b.is_busy());
    assert!(b.results().is_empty());
    b.start_generation(Ok(WorkerCommand::FetchOpenRouterModels));
    receive(&mut b, &mut s, WorkerResult::Done);
    assert!(!b.is_busy());
}

#[test]
fn model_list_goes_to_settings() {
    let mut b: ResultsBoard<u32> = ResultsBoard::new();
    let mut s = settings();
    s.openrouter_model_idx = 3;
    let models = vec![("x/y:free".to_string(), "Y (Free)".to_string())];
    receive(&mut b, &mut s, WorkerResult::OpenRouterModels(models.clone()));
    assert_eq!(s.openrouter_models, models);
    assert_eq!(s.openrouter_model_idx, 0);
    assert!(b.results().is_empty());
    let before = s.clone();
    receive(&mut b, &mut s, WorkerResult::Done);
    assert_eq!(s.openrouter_models, before.openrouter_models);
    assert_eq!(s.openrouter_model_idx, before.openrouter_model_idx);
}

#[test]
fn batch_of_results() {
    let mut b: ResultsBoard<u32> = ResultsBoard::new();
    let mut s = settings();
    b.start_generation(Ok(WorkerCommand::FetchOpenRouterModels));
    receive_all(
        &mut b,
        &mut s,
        vec![
            WorkerResult::DomainResult(status("a.com", Availability::Pending)),
            WorkerResult::OpenRouterModels(vec![("m1".to_string(), "M1".to_string())]),
            WorkerResult::DomainResult(status("b.com", Availability::Taken)),
            WorkerResult::DomainResult(status("a.com", Availability::Available)),
            WorkerResult::OpenRouterModels(vec![("m2".to_string(), "M2".to_string())]),
        ],
    );
    assert!(b.is_busy());
    let r = b.results();
    assert_eq!(r.len(), 2);
    assert_eq!(r[0].domain, "a.com");
    assert!(matches!(r[0].availability, Availability::Available));
    assert_eq!(s.openrouter_models, vec![("m2".to_string(), "M2".to_string())]);
    assert_eq!(s.openrouter_model_idx, 0);
    receive_all(&mut b, &mut s, vec![WorkerResult::Done, WorkerResult::Progress { checked: 2, total: 2 }]);
    assert!(!b.is_busy());
    receive_all(&mut b, &mut s, vec![]);
    assert!(!b.is_busy());
    assert_eq!(b.results().len(), 2);
}
