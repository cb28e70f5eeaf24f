//! The OpenRouter backend: its free models and the content of its replies.

use vstd::prelude::*;
use vstd::string::StringExecFns;
use crate::text::{chars_of, find, find_from, matches_at, occurs_at};
use crate::http::{status_display, status_text};

verus! {

/// Default model: the router picks the best available free model.
pub const DEFAULT_MODEL: &'static str = "openrouter/auto";

/// Known free models the user can select from: (id, label).
pub const FREE_MODELS: [(&'static str, &'static str); 6] = [
    ("openrouter/auto", "Auto (Best Free)"),
    ("meta-llama/llama-3.3-70b-instruct:free", "Llama 3.3 70B (Free)"),
    ("google/gemma-4-26b-a4b-it:free", "Gemma 4 26B (Free)"),
    ("google/gemma-4-31b-it:free", "Gemma 4 31B (Free)"),
    ("mistralai/mistral-7b-instruct:free", "Mistral 7B (Free)"),
    ("qwen/qwen-2.5-72b-instruct:free", "Qwen 2.5 72B (Free)"),
];

/// Whether a model id names a free model that is offered: it ends in
/// ":free" and does not contain "google/gemma-2-9b-it:free".
pub open spec fn offered_free(id: Seq<char>) -> bool {
    &&& matches_at(id, ":free"@, id.len() - ":free"@.len())
    &&& find_from(id, "google/gemma-2-9b-it:free"@, 0) is None
}

/// The offered free models of a listing (id, name), each labelled with its
/// name and " (Free)", in order.
pub open spec fn offered_models(models: Seq<(Seq<char>, Seq<char>)>) -> Seq<(Seq<char>, Seq<char>)>
    decreases models.len(),
{
    if models.len() == 0 {
        Seq::empty()
    } else {
        let prev = offered_models(models.drop_last());
        let m = models.last();
        if offered_free(m.0) {
            prev.push((m.0, m.1 + " (Free)"@))
        } else {
            prev
        }
    }
}

/// The model choices built from a listing of models (id, name): the
/// automatic router first, then the offered free models.
pub open spec fn model_choices(models: Seq<(Seq<char>, Seq<char>)>) -> Seq<(Seq<char>, Seq<char>)> {
    seq![("openrouter/auto"@, "Auto (Best Free)"@)] + offered_models(models)
}

/// No match of `pat` in `t` at or after `from` means `find_from` finds none.
proof fn lemma_no_match_found(t: Seq<char>, pat: Seq<char>, from: int)
    requires
        from >= 0,
        forall|i: int| from <= i ==> !#[trigger] matches_at(t, pat, i),
    ensures
        find_from(t, pat, from) is None,
    decreases t.len() - from,
{
    if from < t.len() {
        lemma_no_match_found(t, pat, from + 1);
    }
}

proof fn lemma_offered_kept(models: Seq<(Seq<char>, Seq<char>)>, k: int)
    requires
        0 <= k < models.len(),
        offered_free(models[k].0),
    ensures
        offered_models(models).contains((models[k].0, models[k].1 + " (Free)"@)),
    decreases models.len(),
{
    let prev = offered_models(models.drop_last());
    if k == models.len() - 1 {
        assert(offered_models(models)[prev.len() as int] == (models[k].0, models[k].1 + " (Free)"@));
    } else {
        assert(models.drop_last()[k] == models[k]);
        lemma_offered_kept(models.drop_last(), k);
        let i = choose|i: int| 0 <= i < prev.len() && prev[i] == (models[k].0, models[k].1 + " (Free)"@);
        if offered_free(models.last().0) {
            assert(offered_models(models)[i] == prev[i]);
        }
    }
}

/// Every listed model whose id ends in ":free" and does not contain
/// "google/gemma-2-9b-it:free" is offered, labelled with its name followed
/// by " (Free)"; the automatic router always comes first.
pub proof fn law_free_models_offered(models: Seq<(Seq<char>, Seq<char>)>, k: int)
    requires
        0 <= k < models.len(),
        matches_at(models[k].0, ":free"@, models[k].0.len() - 5),
        forall|i: int| !#[trigger] matches_at(models[k].0, "google/gemma-2-9b-it:free"@, i),
    ensures
        model_choices(models).contains((models[k].0, models[k].1 + " (Free)"@)),
        model_choices(models)[0] == ("openrouter/auto"@, "Auto (Best Free)"@),
{
    reveal_strlit(":free");
    reveal_strlit("google/gemma-2-9b-it:free");
    let id = models[k].0;
    lemma_no_match_found(id, "google/gemma-2-9b-it:free"@, 0);
    assert(offered_free(id));
    lemma_offered_kept(models, k);
    let o = offered_models(models);
    let i = choose|i: int| 0 <= i < o.len() && o[i] == (models[k].0, models[k].1 + " (Free)"@);
    assert(model_choices(models)[i + 1] == o[i]);
}

proof fn lemma_none_found_no_match(t: Seq<char>, pat: Seq<char>, from: int)
    requires
        from >= 0,
        pat.len() > 0,
        find_from(t, pat, from) is None,
    ensures
        forall|i: int| from <= i ==> !#[trigger] matches_at(t, pat, i),
    decreases t.len() - from,
{
    if from < t.len() {
        lemma_none_found_no_match(t, pat, from + 1);
    }
}

/// Only free models are offered: after the automatic router, every choice
/// is a listed model whose id ends in ":free" and does not contain
/// "google/gemma-2-9b-it:free", labelled with its name and " (Free)".
pub proof fn law_only_free_models_offered(models: Seq<(Seq<char>, Seq<char>)>, c: int)
    requires
        1 <= c < model_choices(models).len(),
    ensures
        exists|k: int| 0 <= k < models.len() && model_choices(models)[c] == (#[trigger] models[k].0, models[k].1 + " (Free)"@)
            && matches_at(models[k].0, ":free"@, models[k].0.len() - 5)
            && forall|i: int| !#[trigger] matches_at(models[k].0, "google/gemma-2-9b-it:free"@, i),
    decreases models.len(),
{
    let prev = offered_models(models.drop_last());
    let o = offered_models(models);
    assert(model_choices(models)[c] == o[c - 1]);
    if c - 1 < prev.len() {
        assert(o[c - 1] == prev[c - 1]);
        assert(model_choices(models.drop_last())[c] == prev[c - 1]);
        law_only_free_models_offered(models.drop_last(), c);
        let k = choose|k: int| 0 <= k < models.drop_last().len() && model_choices(models.drop_last())[c] == (#[trigger] models.drop_last()[k].0, models.drop_last()[k].1 + " (Free)"@)
            && matches_at(models.drop_last()[k].0, ":free"@, models.drop_last()[k].0.len() - 5)
            && forall|i: int| !#[trigger] matches_at(models.drop_last()[k].0, "google/gemma-2-9b-it:free"@, i);
        assert(models[k] == models.drop_last()[k]);
        assert(model_choices(models)[c] == (models[k].0, models[k].1 + " (Free)"@));
        assert(matches_at(models[k].0, ":free"@, models[k].0.len() - 5));
        assert(forall|i: int| !#[trigger] matches_at(models[k].0, "google/gemma-2-9b-it:free"@, i));
    } else {
        let k = models.len() - 1;
        assert(models[k] == models.last());
        assert(offered_free(models[k].0));
        reveal_strlit(":free");
        reveal_strlit("google/gemma-2-9b-it:free");
        assert(matches_at(models[k].0, ":free"@, models[k].0.len() - 5));
        lemma_none_found_no_match(models[k].0, "google/gemma-2-9b-it:free"@, 0);
        assert(o[c - 1] == (models[k].0, models[k].1 + " (Free)"@));
        assert(model_choices(models)[c] == (models[k].0, models[k].1 + " (Free)"@));
    }
}

fn is_offered_free(id: &str) -> (r: bool)
    ensures
        r == offered_free(id@),
{
    let v = chars_of(id);
    let suffix = chars_of(":free");
    let excluded = chars_of("google/gemma-2-9b-it:free");
    if suffix.len() > v.len() {
        return false;
    }
    occurs_at(&v, &suffix, v.len() - suffix.len()) && find(&v, &excluded, 0).is_none()
}

/// The model choices from the models that OpenRouter lists (id, name).
pub fn select_free_models(models: &Vec<(String, String)>) -> (r: Vec<(String, String)>)
    ensures
        r.deep_view() == model_choices(models.deep_view()),
{
    let mut out: Vec<(String, String)> = Vec::new();
    out.push((String::from_str("openrouter/auto"), String::from_str("Auto (Best Free)")));
    for i in 0..models.len()
        invariant
            out.deep_view() == seq![("openrouter/auto"@, "Auto (Best Free)"@)] + offered_models(
                models.deep_view().take(i as int),
            ),
    {
        assert(models.deep_view().take(i + 1).drop_last() =~= models.deep_view().take(i as int));
        assert(models.deep_view().take(i + 1).last() == models@[i as int].deep_view());
        if is_offered_free(models[i].0.as_str()) {
            let ghost prev = out.deep_view();
            let mut label = models[i].1.clone();
            label.append(" (Free)");
            out.push((models[i].0.clone(), label));
            assert(out.deep_view() =~= prev.push((models@[i as int].0@, models@[i as int].1@ + " (Free)"@)));
        }
    }
    assert(models.deep_view().take(models.len() as int) =~= models.deep_view());
    out
}

/// The content of a chat reply: that of its first choice, or empty text.
pub fn first_choice_content(choices: &Vec<String>) -> (r: String)
    ensures
        r@ == (if choices@.len() > 0 {
            choices@[0]@
        } else {
            Seq::empty()
        }),
{
    if choices.len() > 0 {
        choices[0].clone()
    } else {
        String::new()
    }
}

/// The error of a chat request that OpenRouter answered with a failure
/// status: the status as it is displayed and the reply's text.
pub open spec fn api_error(code: u16, text: Seq<char>) -> Seq<char> {
    "OpenRouter API error ("@ + status_display(code) + "): "@ + text
}

/// The error message for a chat reply with failure status `code` and text
/// `text`.
pub fn api_error_message(code: u16, text: &str) -> (r: String)
    requires
        100 <= code <= 999,
    ensures
        r@ == api_error(code, text@),
{
    let mut m = String::from_str("OpenRouter API error (");
    m.append(status_text(code).as_str());
    m.append("): ");
    m.append(text);
    m
}

} // verus!
