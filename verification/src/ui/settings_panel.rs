//! Settings state: model backend, API keys, TLD selection, domain checker
//! and registrar links.

use vstd::prelude::*;
use vstd::string::StringExecFns;
use crate::domain::DomainCheckerKind;
use crate::domain::tld::DEFAULT_TLDS;
use crate::llm::LlmProviderKind;
use crate::llm::openrouter::FREE_MODELS;
use crate::text::{chars_of, str_eq, trim, trimmed};

verus! {

/// Preferred domain registrar for outgoing links.
#[derive(Debug, Clone, Copy, PartialEq, Eq, Structural)]
pub enum PreferredRegistrar {
    Namecheap,
    GoDaddy,
    Porkbun,
    Cloudflare,
}

/// The display label of a registrar.
pub open spec fn registrar_label(r: PreferredRegistrar) -> Seq<char> {
    match r {
        PreferredRegistrar::Namecheap => "Namecheap"@,
        PreferredRegistrar::GoDaddy => "GoDaddy"@,
        PreferredRegistrar::Porkbun => "Porkbun"@,
        PreferredRegistrar::Cloudflare => "Cloudflare"@,
    }
}

/// The start of a registrar's search URL; the domain follows it.
pub open spec fn registrar_search_prefix(r: PreferredRegistrar) -> Seq<char> {
    match r {
        PreferredRegistrar::Namecheap => "https://www.namecheap.com/domains/registration/results/?domain="@,
        PreferredRegistrar::GoDaddy => "https://www.godaddy.com/domainsearch/find?checkAvail=1&domainToGo="@,
        PreferredRegistrar::Porkbun => "https://porkbun.com/checkout/search?q="@,
        PreferredRegistrar::Cloudflare => "https://dash.cloudflare.com/?to=/:account/domains/register/?searchTerm="@,
    }
}

impl PreferredRegistrar {
    /// Every registrar, in display order.
    pub const ALL: [PreferredRegistrar; 4] = [
        PreferredRegistrar::Namecheap,
        PreferredRegistrar::GoDaddy,
        PreferredRegistrar::Porkbun,
        PreferredRegistrar::Cloudflare,
    ];

    pub fn label(self) -> (r: &'static str)
        ensures
            r@ == registrar_label(self),
    {
        match self {
            PreferredRegistrar::Namecheap => "Namecheap",
            PreferredRegistrar::GoDaddy => "GoDaddy",
            PreferredRegistrar::Porkbun => "Porkbun",
            PreferredRegistrar::Cloudflare => "Cloudflare",
        }
    }

    /// The page where `domain` can be bought from this registrar.
    pub fn purchase_url(self, domain: &str) -> (r: String)
        ensures
            r@ == registrar_search_prefix(self) + domain@,
    {
        let mut url = match self {
            PreferredRegistrar::Namecheap => String::from_str(
                "https://www.namecheap.com/domains/registration/results/?domain=",
            ),
            PreferredRegistrar::GoDaddy => String::from_str(
                "https://www.godaddy.com/domainsearch/find?checkAvail=1&domainToGo=",
            ),
            PreferredRegistrar::Porkbun => String::from_str("https://porkbun.com/checkout/search?q="),
            PreferredRegistrar::Cloudflare => String::from_str(
                "https://dash.cloudflare.com/?to=/:account/domains/register/?searchTerm=",
            ),
        };
        url.append(domain);
        url
    }
}


/// The settings that are written to the settings file; each is optional so
/// that files written with fewer settings can still be read.
pub struct SavedSettings {
    pub llm_kind: Option<LlmProviderKind>,
    pub checker_kind: Option<DomainCheckerKind>,
    pub active_tlds: Option<Vec<(String, bool)>>,
    pub custom_tld: Option<String>,
    pub custom_tld_enabled: Option<bool>,
    pub preferred_registrar: Option<PreferredRegistrar>,
    pub openrouter_model_idx: Option<usize>,
    pub ollama_model: Option<String>,
}

/// The persisted settings as values.
pub struct PersistedView {
    pub llm_kind: LlmProviderKind,
    pub checker_kind: DomainCheckerKind,
    pub active_tlds: Seq<(Seq<char>, bool)>,
    pub custom_tld: Seq<char>,
    pub custom_tld_enabled: bool,
    pub preferred_registrar: PreferredRegistrar,
    pub openrouter_model_idx: usize,
    pub ollama_model: Seq<char>,
}

/// A settings file's contents as values.
pub struct SavedView {
    pub llm_kind: Option<LlmProviderKind>,
    pub checker_kind: Option<DomainCheckerKind>,
    pub active_tlds: Option<Seq<(Seq<char>, bool)>>,
    pub custom_tld: Option<Seq<char>>,
    pub custom_tld_enabled: Option<bool>,
    pub preferred_registrar: Option<PreferredRegistrar>,
    pub openrouter_model_idx: Option<usize>,
    pub ollama_model: Option<Seq<char>>,
}

impl View for SavedSettings {
    type V = SavedView;

    open spec fn view(&self) -> SavedView {
        SavedView {
            llm_kind: self.llm_kind,
            checker_kind: self.checker_kind,
            active_tlds: self.active_tlds.deep_view(),
            custom_tld: self.custom_tld.deep_view(),
            custom_tld_enabled: self.custom_tld_enabled,
            preferred_registrar: self.preferred_registrar,
            openrouter_model_idx: self.openrouter_model_idx,
            ollama_model: self.ollama_model.deep_view(),
        }
    }
}

impl Default for SavedSettings {
    fn default() -> (r: Self)
        ensures
            r@ == (SavedView {
                llm_kind: None,
                checker_kind: None,
                active_tlds: None,
                custom_tld: None,
                custom_tld_enabled: None,
                preferred_registrar: None,
                openrouter_model_idx: None,
                ollama_model: None,
            }),
    {
        SavedSettings {
            llm_kind: None,
            checker_kind: None,
            active_tlds: None,
            custom_tld: None,
            custom_tld_enabled: None,
            preferred_registrar: None,
            openrouter_model_idx: None,
            ollama_model: None,
        }
    }
}

/// The file contents that record the persisted settings `p`: every setting
/// present.
pub open spec fn saved_of(p: PersistedView) -> SavedView {
    SavedView {
        llm_kind: Some(p.llm_kind),
        checker_kind: Some(p.checker_kind),
        active_tlds: Some(p.active_tlds),
        custom_tld: Some(p.custom_tld),
        custom_tld_enabled: Some(p.custom_tld_enabled),
        preferred_registrar: Some(p.preferred_registrar),
        openrouter_model_idx: Some(p.openrouter_model_idx),
        ollama_model: Some(p.ollama_model),
    }
}

/// The persisted settings `p` with the settings present in a file applied.
pub open spec fn merged(p: PersistedView, saved: SavedView) -> PersistedView {
    PersistedView {
        llm_kind: match saved.llm_kind {
            Some(v) => v,
            None => p.llm_kind,
        },
        checker_kind: match saved.checker_kind {
            Some(v) => v,
            None => p.checker_kind,
        },
        active_tlds: match saved.active_tlds {
            Some(v) => v,
            None => p.active_tlds,
        },
        custom_tld: match saved.custom_tld {
            Some(v) => v,
            None => p.custom_tld,
        },
        custom_tld_enabled: match saved.custom_tld_enabled {
            Some(v) => v,
            None => p.custom_tld_enabled,
        },
        preferred_registrar: match saved.preferred_registrar {
            Some(v) => v,
            None => p.preferred_registrar,
        },
        openrouter_model_idx: match saved.openrouter_model_idx {
            Some(v) => v,
            None => p.openrouter_model_idx,
        },
        ollama_model: match saved.ollama_model {
            Some(v) => v,
            None => p.ollama_model,
        },
    }
}

/// Settings state of the application.
#[derive(Debug, Clone)]
pub struct SettingsState {
    pub llm_kind: LlmProviderKind,
    pub openrouter_key: String,
    pub openrouter_key_visible: bool,
    pub openrouter_model_idx: usize,
    pub openrouter_models: Vec<(String, String)>,
    pub ollama_model: String,
    pub ollama_available: bool,
    pub ollama_models: Vec<String>,
    pub checker_kind: DomainCheckerKind,
    pub whoisfreaks_key: String,
    pub whoisfreaks_key_visible: bool,
    pub active_tlds: Vec<(String, bool)>,
    pub custom_tld: String,
    pub custom_tld_enabled: bool,
    pub preferred_registrar: PreferredRegistrar,
    pub status_message: Option<String>,
    /// The settings file contents that were last written or read.
    pub last_saved_json: String,
}

/// The state `s` with a new list of OpenRouter models, the first selected.
pub open spec fn with_models(s: SettingsState, models: Vec<(String, String)>) -> SettingsState {
    SettingsState { openrouter_models: models, openrouter_model_idx: 0, ..s }
}

/// The settings of a state that are written to the settings file.
pub open spec fn persisted(s: SettingsState) -> PersistedView {
    PersistedView {
        llm_kind: s.llm_kind,
        checker_kind: s.checker_kind,
        active_tlds: s.active_tlds.deep_view(),
        custom_tld: s.custom_tld@,
        custom_tld_enabled: s.custom_tld_enabled,
        preferred_registrar: s.preferred_registrar,
        openrouter_model_idx: s.openrouter_model_idx,
        ollama_model: s.ollama_model@,
    }
}

/// The two states agree on every setting that is not written to the
/// settings file.
pub open spec fn same_session_fields(a: SettingsState, b: SettingsState) -> bool {
    &&& a.openrouter_key == b.openrouter_key
    &&& a.openrouter_key_visible == b.openrouter_key_visible
    &&& a.openrouter_models == b.openrouter_models
    &&& a.ollama_available == b.ollama_available
    &&& a.ollama_models == b.ollama_models
    &&& a.whoisfreaks_key == b.whoisfreaks_key
    &&& a.whoisfreaks_key_visible == b.whoisfreaks_key_visible
    &&& a.status_message == b.status_message
}

/// The free models offered before a listing is fetched, as (id, label).
pub open spec fn default_models() -> Seq<(Seq<char>, Seq<char>)> {
    FREE_MODELS@.map_values(|m: (&str, &str)| (m.0@, m.1@))
}

/// The default TLDs, all enabled.
pub open spec fn default_tld_choices() -> Seq<(Seq<char>, bool)> {
    DEFAULT_TLDS@.map_values(|t: &str| (t@, true))
}

fn copy_tld_choices(v: &Vec<(String, bool)>) -> (r: Vec<(String, bool)>)
    ensures
        r.deep_view() == v.deep_view(),
{
    let mut r: Vec<(String, bool)> = Vec::new();
    for i in 0..v.len()
        invariant
            r.deep_view() == v.deep_view().take(i as int),
    {
        let ghost prev = r.deep_view();
        r.push((v[i].0.clone(), v[i].1));
        assert(r.deep_view() =~= prev.push(v@[i as int].deep_view()));
        assert(v.deep_view().take(i + 1) =~= v.deep_view().take(i as int).push(v@[i as int].deep_view()));
    }
    assert(v.deep_view().take(v.len() as int) =~= v.deep_view());
    r
}

impl SettingsState {
    /// The default settings, with the stored API keys.
    pub fn with_keys(openrouter_key: String, whoisfreaks_key: String) -> (r: SettingsState)
        ensures
            r.llm_kind == LlmProviderKind::OpenRouter,
            r.openrouter_key == openrouter_key,
            !r.openrouter_key_visible,
            r.openrouter_model_idx == 0,
            r.openrouter_models.deep_view() == default_models(),
            r.ollama_model@ == "llama3"@,
            !r.ollama_available,
            r.ollama_models@.len() == 0,
            r.checker_kind == DomainCheckerKind::WhoisFreaks,
            r.whoisfreaks_key == whoisfreaks_key,
            !r.whoisfreaks_key_visible,
            r.active_tlds.deep_view() == default_tld_choices(),
            r.custom_tld@.len() == 0,
            !r.custom_tld_enabled,
            r.preferred_registrar == PreferredRegistrar::Namecheap,
            r.status_message is None,
            r.last_saved_json@.len() == 0,
    {
        let mut models: Vec<(String, String)> = Vec::new();
        for i in 0..FREE_MODELS.len()
            invariant
                models.deep_view() == default_models().take(i as int),
        {
            let ghost prev = models.deep_view();
            let m = FREE_MODELS[i];
            assert(m == FREE_MODELS@[i as int]);
            models.push((String::from_str(m.0), String::from_str(m.1)));
            assert(models.deep_view() =~= prev.push((m.0@, m.1@)));
            assert(default_models()[i as int] == (m.0@, m.1@));
            assert(default_models().take(i + 1) =~= default_models().take(i as int).push((m.0@, m.1@)));
        }
        assert(default_models().take(FREE_MODELS.len() as int) =~= default_models());
        let mut tlds: Vec<(String, bool)> = Vec::new();
        for i in 0..DEFAULT_TLDS.len()
            invariant
                tlds.deep_view() == default_tld_choices().take(i as int),
        {
            let ghost prev = tlds.deep_view();
            let t = DEFAULT_TLDS[i];
            assert(t == DEFAULT_TLDS@[i as int]);
            tlds.push((String::from_str(t), true));
            assert(tlds.deep_view() =~= prev.push((t@, true)));
            assert(default_tld_choices()[i as int] == (t@, true));
            assert(default_tld_choices().take(i + 1) =~= default_tld_choices().take(i as int).push((t@, true)));
        }
        assert(default_tld_choices().take(DEFAULT_TLDS.len() as int) =~= default_tld_choices());
        SettingsState {
            llm_kind: LlmProviderKind::OpenRouter,
            openrouter_key,
            openrouter_key_visible: false,
            openrouter_model_idx: 0,
            openrouter_models: models,
            ollama_model: String::from_str("llama3"),
            ollama_available: false,
            ollama_models: Vec::new(),
            checker_kind: DomainCheckerKind::WhoisFreaks,
            whoisfreaks_key,
            whoisfreaks_key_visible: false,
            active_tlds: tlds,
            custom_tld: String::new(),
            custom_tld_enabled: false,
            preferred_registrar: PreferredRegistrar::Namecheap,
            status_message: None,
            last_saved_json: String::new(),
        }
    }

    /// The settings file contents for this state: every persisted setting.
    pub fn to_saved(&self) -> (r: SavedSettings)
        ensures
            r@ == saved_of(persisted(*self)),
    {
        SavedSettings {
            llm_kind: Some(
                match self.llm_kind {
                    LlmProviderKind::OpenRouter => LlmProviderKind::OpenRouter,
                    LlmProviderKind::Ollama => LlmProviderKind::Ollama,
                },
            ),
            checker_kind: Some(self.checker_kind),
            active_tlds: Some(copy_tld_choices(&self.active_tlds)),
            custom_tld: Some(self.custom_tld.clone()),
            custom_tld_enabled: Some(self.custom_tld_enabled),
            preferred_registrar: Some(self.preferred_registrar),
            openrouter_model_idx: Some(self.openrouter_model_idx),
            ollama_model: Some(self.ollama_model.clone()),
        }
    }

    /// Apply the settings that a settings file holds.
    #[verifier::rlimit(40)]
    pub fn apply_saved(&mut self, saved: SavedSettings)
        ensures
            persisted(*final(self)) == merged(persisted(*old(self)), saved@),
            same_session_fields(*final(self), *old(self)),
            final(self).last_saved_json == old(self).last_saved_json,
    {
        if let Some(v) = saved.llm_kind {
            self.llm_kind = v;
        }
        if let Some(v) = saved.checker_kind {
            self.checker_kind = v;
        }
        if let Some(v) = saved.active_tlds {
            self.active_tlds = v;
        }
        if let Some(v) = saved.custom_tld {
            self.custom_tld = v;
        }
        if let Some(v) = saved.custom_tld_enabled {
            self.custom_tld_enabled = v;
        }
        if let Some(v) = saved.preferred_registrar {
            self.preferred_registrar = v;
        }
        if let Some(v) = saved.openrouter_model_idx {
            self.openrouter_model_idx = v;
        }
        if let Some(v) = saved.ollama_model {
            self.ollama_model = v;
        }
    }

    /// Take a new list of OpenRouter models (id, label); the first one
    /// becomes the selected model.
    pub fn set_openrouter_models(&mut self, models: Vec<(String, String)>)
        ensures
            *final(self) == with_models(*old(self), models),
    {
        self.openrouter_models = models;
        self.openrouter_model_idx = 0;
    }

    /// Record `json`, the settings file contents for the current state;
    /// returns whether it differs from what was last recorded, that is,
    /// whether the file must be written.
    pub fn save_if_changed(&mut self, json: String) -> (changed: bool)
        ensures
            changed == (old(self).last_saved_json@ != json@),
            final(self).last_saved_json@ == json@,
            persisted(*final(self)) == persisted(*old(self)),
            same_session_fields(*final(self), *old(self)),
    {
        if !str_eq(self.last_saved_json.as_str(), json.as_str()) {
            self.last_saved_json = json;
            true
        } else {
            false
        }
    }
}

/// The TLDs of the choices that are enabled, in order.
pub open spec fn enabled_choices(active: Seq<(Seq<char>, bool)>) -> Seq<Seq<char>>
    decreases active.len(),
{
    if active.len() == 0 {
        Seq::empty()
    } else {
        let prev = enabled_choices(active.drop_last());
        if active.last().1 {
            prev.push(active.last().0)
        } else {
            prev
        }
    }
}

/// A custom TLD as it is used: trimmed, with a leading '.' added when it
/// has none.
pub open spec fn custom_tld_form(custom: Seq<char>) -> Seq<char> {
    let t = trimmed(custom);
    if t.len() > 0 && t[0] == '.' {
        t
    } else {
        "."@ + t
    }
}

/// The TLDs to check: the enabled choices, then the custom TLD when it is
/// enabled, not blank and not already among them.
pub open spec fn tlds_to_check(active: Seq<(Seq<char>, bool)>, custom: Seq<char>, custom_enabled: bool) -> Seq<Seq<char>> {
    let base = enabled_choices(active);
    if custom_enabled && trimmed(custom).len() > 0 {
        let c = custom_tld_form(custom);
        if base.contains(c) {
            base
        } else {
            base.push(c)
        }
    } else {
        base
    }
}

/// The model id selected from a list of (id, label): the one at `idx`, or
/// the automatic router when `idx` is out of range.
pub open spec fn model_at(models: Seq<(Seq<char>, Seq<char>)>, idx: int) -> Seq<char> {
    if 0 <= idx < models.len() {
        models[idx].0
    } else {
        "openrouter/auto"@
    }
}

fn contains_text(list: &Vec<String>, s: &str) -> (r: bool)
    ensures
        r == list.deep_view().contains(s@),
{
    for i in 0..list.len()
        invariant
            forall|j: int| 0 <= j < i ==> list.deep_view()[j] != s@,
    {
        if str_eq(list[i].as_str(), s) {
            assert(list.deep_view()[i as int] == s@);
            return true;
        }
    }
    false
}

impl SettingsState {
    /// Get the list of enabled TLD strings.
    pub fn enabled_tlds(&self) -> (r: Vec<String>)
        ensures
            r.deep_view() == tlds_to_check(
                self.active_tlds.deep_view(),
                self.custom_tld@,
                self.custom_tld_enabled,
            ),
    {
        let mut tlds: Vec<String> = Vec::new();
        for i in 0..self.active_tlds.len()
            invariant
                tlds.deep_view() == enabled_choices(self.active_tlds.deep_view().take(i as int)),
        {
            assert(self.active_tlds.deep_view().take(i + 1).drop_last()
                =~= self.active_tlds.deep_view().take(i as int));
            assert(self.active_tlds.deep_view().take(i + 1).last()
                == self.active_tlds@[i as int].deep_view());
            if self.active_tlds[i].1 {
                let ghost prev = tlds.deep_view();
                tlds.push(self.active_tlds[i].0.clone());
                assert(tlds.deep_view() =~= prev.push(self.active_tlds@[i as int].0@));
            }
        }
        assert(self.active_tlds.deep_view().take(self.active_tlds.len() as int)
            =~= self.active_tlds.deep_view());
        if self.custom_tld_enabled {
            let custom = trim(self.custom_tld.as_str());
            if !custom.is_empty() {
                let cv = chars_of(custom);
                let clean = if cv[0] == '.' {
                    String::from_str(custom)
                } else {
                    let mut c = String::from_str(".");
                    c.append(custom);
                    c
                };
                if !contains_text(&tlds, clean.as_str()) {
                    let ghost prev = tlds.deep_view();
                    tlds.push(clean);
                    assert(tlds.deep_view() =~= prev.push(custom_tld_form(self.custom_tld@)));
                }
            }
        }
        tlds
    }

    /// Get the selected OpenRouter model id.
    pub fn selected_openrouter_model(&self) -> (r: String)
        ensures
            r@ == model_at(self.openrouter_models.deep_view(), self.openrouter_model_idx as int),
    {
        if self.openrouter_model_idx < self.openrouter_models.len() {
            self.openrouter_models[self.openrouter_model_idx].0.clone()
        } else {
            String::from_str("openrouter/auto")
        }
    }
}

/// `t` is the TLD of an enabled choice.
pub open spec fn enabled_tld(active: Seq<(Seq<char>, bool)>, t: Seq<char>) -> bool {
    exists|j: int| 0 <= j < active.len() && active[j].1 && #[trigger] active[j].0 == t
}

proof fn lemma_enabled_choices(active: Seq<(Seq<char>, bool)>)
    ensures
        forall|i: int| 0 <= i < active.len() && active[i].1 ==> enabled_choices(active).contains(#[trigger] active[i].0),
        forall|k: int| 0 <= k < enabled_choices(active).len() ==> enabled_tld(active, #[trigger] enabled_choices(active)[k]),
    decreases active.len(),
{
    if active.len() > 0 {
        let init = active.drop_last();
        let prev = enabled_choices(init);
        lemma_enabled_choices(init);
        let e = enabled_choices(active);
        assert forall|i: int| 0 <= i < active.len() && active[i].1 implies e.contains(#[trigger] active[i].0) by {
            if i < init.len() {
                assert(init[i] == active[i]);
                assert(prev.contains(init[i].0));
                let k = choose|k: int| 0 <= k < prev.len() && prev[k] == init[i].0;
                assert(e[k] == prev[k]);
            } else {
                assert(e[prev.len() as int] == active[i].0);
            }
        }
        assert forall|k: int| 0 <= k < e.len() implies enabled_tld(active, #[trigger] e[k]) by {
            if k < prev.len() {
                assert(e[k] == prev[k]);
                assert(enabled_tld(init, prev[k]));
                let j = choose|j: int| 0 <= j < init.len() && init[j].1 && #[trigger] init[j].0 == prev[k];
                assert(active[j] == init[j]);
                assert(active[j].0 == e[k]);
            } else {
                let j = active.len() - 1;
                assert(active[j].1);
                assert(active[j].0 == e[k]);
            }
        }
    }
}

/// Every enabled TLD choice is checked, and only enabled choices and the
/// enabled custom TLD (trimmed, with a leading '.') are checked.
pub proof fn law_checked_tlds(active: Seq<(Seq<char>, bool)>, custom: Seq<char>, custom_enabled: bool)
    ensures
        forall|i: int| 0 <= i < active.len() && active[i].1 ==> tlds_to_check(active, custom, custom_enabled).contains(#[trigger] active[i].0),
        forall|k: int| 0 <= k < tlds_to_check(active, custom, custom_enabled).len() ==> enabled_tld(active, #[trigger] tlds_to_check(active, custom, custom_enabled)[k])
            || (custom_enabled && trimmed(custom).len() > 0 && tlds_to_check(active, custom, custom_enabled)[k] == custom_tld_form(custom)),
{
    lemma_enabled_choices(active);
    let base = enabled_choices(active);
    let r = tlds_to_check(active, custom, custom_enabled);
    assert forall|i: int| 0 <= i < active.len() && active[i].1 implies r.contains(#[trigger] active[i].0) by {
        assert(base.contains(active[i].0));
        let k = choose|k: int| 0 <= k < base.len() && base[k] == active[i].0;
        assert(r[k] == base[k]);
    }
    assert forall|k: int| 0 <= k < r.len() implies enabled_tld(active, #[trigger] r[k])
        || (custom_enabled && trimmed(custom).len() > 0 && r[k] == custom_tld_form(custom)) by {
        if k < base.len() {
            assert(r[k] == base[k]);
        } else {
            assert(custom_enabled && trimmed(custom).len() > 0 && !base.contains(custom_tld_form(custom)));
            assert(r[k] == custom_tld_form(custom));
        }
    }
}

/// An enabled, non-blank custom TLD is always among the TLDs to check, in
/// its dotted form.
pub proof fn law_custom_tld_checked(active: Seq<(Seq<char>, bool)>, custom: Seq<char>)
    requires
        trimmed(custom).len() > 0,
    ensures
        tlds_to_check(active, custom, true).contains(custom_tld_form(custom)),
{
    let base = enabled_choices(active);
    if !base.contains(custom_tld_form(custom)) {
        assert(base.push(custom_tld_form(custom))[base.len() as int] == custom_tld_form(custom));
    }
}

/// A settings file written from the settings `p` restores exactly `p` into
/// any state it is applied to: the backends, the TLDs, the registrar and
/// the selected OpenRouter and Ollama models.
pub proof fn law_saved_settings_restored(p: PersistedView, q: PersistedView)
    ensures
        merged(q, saved_of(p)) == p,
{
}

/// Applying a state's own settings file leaves its settings as they were.
pub proof fn law_saved_round_trip(p: PersistedView)
    ensures
        merged(p, saved_of(p)) == p,
{
}

/// A settings file that holds no settings changes nothing.
pub proof fn law_empty_file_changes_nothing(p: PersistedView)
    ensures
        merged(
            p,
            SavedView {
                llm_kind: None,
                checker_kind: None,
                active_tlds: None,
                custom_tld: None,
                custom_tld_enabled: None,
                preferred_registrar: None,
                openrouter_model_idx: None,
                ollama_model: None,
            },
        ) == p,
{
}

} // verus!
