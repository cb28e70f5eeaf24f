use domain_suggest::domain::{Availability, DomainCheckerKind, DomainStatus};
use domain_suggest::llm::{BrandPersonality, CreativityMode, LlmProviderKind};
use domain_suggest::ui::input_panel::InputPanelState;
use domain_suggest::ui::results_table::{
    avail_sort_key, compare_domains, export_text, header_label, status_label, table_rows, toggle_sort, visible_rows,
    SortColumn,
};
use domain_suggest::ui::settings_panel::{PreferredRegistrar, SavedSettings, SettingsState};
use std::cmp::Ordering;

fn settings() -> SettingsState {
    SettingsState::with_keys("or-key".to_string(), "wf-key".to_string())
}

#[test]
fn input_defaults_and_request() {
    let mut s = InputPanelState::default();
    assert!(!s.is_valid());
    s.keywords = "   ".to_string();
    assert!(!s.is_valid());
    s.keywords = " cloud ".to_string();
    s.industry = "SaaS".to_string();
    s.personality = BrandPersonality::Technical;
    assert!(s.is_valid());
    let r = s.to_request();
    assert_eq!(r.keywords, " cloud ");
    assert_eq!(r.industry, "SaaS");
    assert_eq!(r.personality, BrandPersonality::Technical);
    assert_eq!(r.max_length, 14);
    assert_eq!(r.count, 15);
    assert_eq!(r.creativity, CreativityMode::Creative);
}

#[test]
fn toggling_sort() {
    let mut col = SortColumn::Domain;
    let mut asc = true;
    toggle_sort(&mut col, &mut asc, SortColumn::Domain);
    assert_eq!((col, asc), (SortColumn::Domain, false));
    toggle_sort(&mut col, &mut asc, SortColumn::Domain);
    assert_eq!((col, asc), (SortColumn::Domain, true));
    asc = false;
    toggle_sort(&mut col, &mut asc, SortColumn::RegPrice);
    assert_eq!((col, asc), (SortColumn::RegPrice, true));
}

#[test]
fn status_sort_keys() {
    assert_eq!(avail_sort_key(&Availability::Available), 0);
    assert_eq!(avail_sort_key(&Availability::Pending), 1);
    assert_eq!(avail_sort_key(&Availability::Unknown), 2);
    assert_eq!(avail_sort_key(&Availability::Taken), 3);
    assert_eq!(avail_sort_key(&Availability::Error("e".to_string())), 4);
}

#[test]
fn domain_order_by_tld_then_name() {
    assert_eq!(compare_domains("zeta.com", "alpha.io"), Ordering::Less);
    assert_eq!(compare_domains("beta.com", "alpha.com"), Ordering::Greater);
    assert_eq!(compare_domains("alpha.com", "alpha.com"), Ordering::Equal);
    assert_eq!(compare_domains("a.co", "a.com"), Ordering::Less);
    let mut v = vec!["b.io", "a.io", "c.com", "a.com"];
    v.sort_by(|x, y| compare_domains(x, y));
    assert_eq!(v, vec!["a.com", "c.com", "a.io", "b.io"]);
}

#[test]
fn registrar_links() {
    assert_eq!(PreferredRegistrar::ALL.len(), 4);
    assert_eq!(PreferredRegistrar::Porkbun.label(), "Porkbun");
    assert_eq!(
        PreferredRegistrar::Namecheap.purchase_url("nexora.com"),
        "https://www.namecheap.com/domains/registration/results/?domain=nexora.com"
    );
    assert_eq!(
        PreferredRegistrar::GoDaddy.purchase_url("x.io"),
        "https://www.godaddy.com/domainsearch/find?checkAvail=1&domainToGo=x.io"
    );
    assert_eq!(
        PreferredRegistrar::Porkbun.purchase_url("x.io"),
        "https://porkbun.com/checkout/search?q=x.io"
    );
    assert_eq!(
        PreferredRegistrar::Cloudflare.purchase_url("x.io"),
        "https://dash.cloudflare.com/?to=/:account/domains/register/?searchTerm=x.io"
    );
}

#[test]
fn default_settings() {
    let s = settings();
    assert_eq!(s.llm_kind, LlmProviderKind::OpenRouter);
    assert_eq!(s.openrouter_key, "or-key");
    assert_eq!(s.whoisfreaks_key, "wf-key");
    assert_eq!(s.openrouter_models.len(), 6);
    assert_eq!(s.ollama_model, "llama3");
    assert_eq!(s.checker_kind, DomainCheckerKind::WhoisFreaks);
    assert_eq!(s.active_tlds.len(), 11);
    assert!(s.active_tlds.iter().all(|(_, on)| *on));
    assert_eq!(s.preferred_registrar, PreferredRegistrar::Namecheap);
    assert_eq!(s.selected_openrouter_model(), "openrouter/auto");
}

#[test]
fn enabled_tld_list() {
    let mut s = settings();
    s.active_tlds = vec![(".com".to_string(), true), (".io".to_string(), false), (".ai".to_string(), true)];
    assert_eq!(s.enabled_tlds(), vec![".com", ".ai"]);
    s.custom_tld = "  xyz ".to_string();
    assert_eq!(s.enabled_tlds(), vec![".com", ".ai"]);
    s.custom_tld_enabled = true;
    assert_eq!(s.enabled_tlds(), vec![".com", ".ai", ".xyz"]);
    s.custom_tld = ".ai".to_string();
    assert_eq!(s.enabled_tlds(), vec![".com", ".ai"]);
    s.custom_tld = "   ".to_string();
    assert_eq!(s.enabled_tlds(), vec![".com", ".ai"]);
}

#[test]
fn selected_model_index() {
    let mut s = settings();
    s.openrouter_model_idx = 2;
    assert_eq!(s.selected_openrouter_model(), "google/gemma-4-26b-a4b-it:free");
    s.openrouter_model_idx = 99;
    assert_eq!(s.selected_openrouter_model(), "openrouter/auto");
}

#[test]
fn saved_settings_round_trip() {
    let mut s = settings();
    s.llm_kind = LlmProviderKind::Ollama;
    s.checker_kind = DomainCheckerKind::Dns;
    s.custom_tld = "shop".to_string();
    s.custom_tld_enabled = true;
    s.preferred_registrar = PreferredRegistrar::Cloudflare;
    s.openrouter_model_idx = 3;
    s.ollama_model = "mistral".to_string();
    let saved = s.to_saved();
    let mut fresh = settings();
    fresh.apply_saved(saved);
    assert_eq!(fresh.llm_kind, LlmProviderKind::Ollama);
    assert_eq!(fresh.checker_kind, DomainCheckerKind::Dns);
    assert_eq!(fresh.custom_tld, "shop");
    assert!(fresh.custom_tld_enabled);
    assert_eq!(fresh.preferred_registrar, PreferredRegistrar::Cloudflare);
    assert_eq!(fresh.active_tlds, s.active_tlds);
    assert_eq!(fresh.openrouter_model_idx, 3);
    assert_eq!(fresh.ollama_model, "mistral");
    assert_eq!(fresh.selected_openrouter_model(), "google/gemma-4-31b-it:free");
    let before = fresh.clone();
    fresh.apply_saved(SavedSettings::default());
    assert_eq!(fresh.llm_kind, before.llm_kind);
    assert_eq!(fresh.custom_tld, before.custom_tld);
}

#[test]
fn save_only_when_changed() {
    let mut s = settings();
    assert!(s.save_if_changed("{\"a\":1}".to_string()));
    assert!(!s.save_if_changed("{\"a\":1}".to_string()));
    assert!(s.save_if_changed("{\"a\":2}".to_string()));
    assert_eq!(s.last_saved_json, "{\"a\":2}");
}

#[test]
fn header_labels() {
    assert_eq!(header_label("Domain", true, true), "Domain ↑");
    assert_eq!(header_label("Domain", true, false), "Domain ↓");
    assert_eq!(header_label("Status", false, true), "Status ↕");
}

fn row(domain: &str, availability: Availability) -> DomainStatus<u32> {
    DomainStatus { domain: domain.to_string(), availability, price: None }
}

fn sample_rows() -> Vec<DomainStatus<u32>> {
    vec![
        row("beta.io", Availability::Taken),
        row("alpha.com", Availability::Available),
        row("zeta.com", Availability::Pending),
        row("gamma.io", Availability::Available),
        row("delta.ai", Availability::Error("boom".to_string())),
    ]
}

#[test]
fn table_rows_by_domain() {
    let r = sample_rows();
    assert_eq!(table_rows(&r, SortColumn::Domain, true, false), Some(vec![4, 1, 2, 0, 3]));
    assert_eq!(table_rows(&r, SortColumn::Domain, false, false), Some(vec![3, 0, 2, 1, 4]));
    assert_eq!(table_rows(&r, SortColumn::Domain, true, true), Some(vec![1, 3]));
}

#[test]
fn table_rows_by_status_keep_ties_in_order() {
    let r = sample_rows();
    assert_eq!(table_rows(&r, SortColumn::Availability, true, false), Some(vec![1, 3, 2, 0, 4]));
    // Descending reverses the status order, rows with the same status keep their order.
    assert_eq!(table_rows(&r, SortColumn::Availability, false, false), Some(vec![4, 0, 2, 1, 3]));
}

#[test]
fn table_rows_leave_price_columns_to_caller() {
    let r = sample_rows();
    assert_eq!(table_rows(&r, SortColumn::RegPrice, true, false), None);
    assert_eq!(table_rows(&r, SortColumn::RenewPrice, false, true), None);
    assert_eq!(visible_rows(&r, false), vec![0, 1, 2, 3, 4]);
    assert_eq!(visible_rows(&r, true), vec![1, 3]);
    let empty: Vec<DomainStatus<u32>> = Vec::new();
    assert_eq!(visible_rows(&empty, true), Vec::<usize>::new());
    assert_eq!(table_rows(&empty, SortColumn::Domain, true, false), Some(vec![]));
}

#[test]
fn export_lines_are_padded() {
    let r = sample_rows();
    let text = export_text(&r, &vec![1, 4, 2, 0]);
    assert_eq!(
        text,
        "alpha.com                 | Available\n\
delta.ai                  | boom\n\
zeta.com                  | Pending\n\
beta.io                   | Taken\n"
    );
    let long = vec![row("averyveryverylongdomainname.com", Availability::Unknown)];
    assert_eq!(export_text(&long, &vec![0]), "averyveryverylongdomainname.com | Unknown\n");
    assert_eq!(export_text(&r, &vec![]), "");
    assert_eq!(
        export_text(&r, &vec![1]),
        format!("{:<25} | {}\n", "alpha.com", "Available")
    );
}

#[test]
fn status_column_labels() {
    assert_eq!(status_label(&Availability::Available), "✅ Available");
    assert_eq!(status_label(&Availability::Taken), "❌ Taken");
    assert_eq!(status_label(&Availability::Pending), "⏳ Checking");
    assert_eq!(status_label(&Availability::Error("x".to_string())), "⚠️ Error");
    assert_eq!(status_label(&Availability::Unknown), "❓ Unknown");
}

#[test]
fn new_model_list_selects_first() {
    let mut s = settings();
    s.openrouter_model_idx = 4;
    s.ollama_model = "phi".to_string();
    s.set_openrouter_models(vec![("a/b:free".to_string(), "B (Free)".to_string())]);
    assert_eq!(s.openrouter_models, vec![("a/b:free".to_string(), "B (Free)".to_string())]);
    assert_eq!(s.openrouter_model_idx, 0);
    assert_eq!(s.selected_openrouter_model(), "a/b:free");
    assert_eq!(s.ollama_model, "phi");
}
