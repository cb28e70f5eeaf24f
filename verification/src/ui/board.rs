//! What the worker's results update: the suggestions, the checked domains,
//! the progress and the busy and error state of a generation.

use vstd::prelude::*;
use crate::domain::DomainStatus;
use crate::text::str_eq;
use crate::worker::WorkerCommand;
use crate::ui::settings_panel::{with_models, SettingsState};

verus! {

/// Results from the worker to the interface.
#[derive(Debug, Clone)]
pub enum WorkerResult<P> {
    /// The model generated these base names.
    Suggestions(Vec<String>),
    /// A single domain check result (streamed one at a time).
    DomainResult(DomainStatus<P>),
    /// Progress update.
    Progress { checked: usize, total: usize },
    /// An error occurred.
    Error(String),
    /// All checks complete.
    Done,
    /// The latest free models (id, label).
    OpenRouterModels(Vec<(String, String)>),
}

/// The domains of a list of statuses, in order.
pub open spec fn domains_of<P>(results: Seq<DomainStatus<P>>) -> Seq<Seq<char>> {
    results.map_values(|s: DomainStatus<P>| s.domain@)
}

/// No domain occurs twice.
pub open spec fn distinct_domains<P>(results: Seq<DomainStatus<P>>) -> bool {
    forall|i: int, j: int|
        0 <= i < j < results.len() ==> #[trigger] results[i].domain@ != #[trigger] results[j].domain@
}

/// The statuses after a new status for its domain arrives: it replaces the
/// status of the same domain in place, or is appended when the domain is new.
pub open spec fn upserted<P>(results: Seq<DomainStatus<P>>, status: DomainStatus<P>) -> Seq<DomainStatus<P>> {
    if exists|i: int| 0 <= i < results.len() && #[trigger] results[i].domain@ == status.domain@ {
        let i = choose|i: int| 0 <= i < results.len() && #[trigger] results[i].domain@ == status.domain@;
        results.update(i, status)
    } else {
        results.push(status)
    }
}

/// The number of available domains among the statuses.
pub open spec fn available_in<P>(results: Seq<DomainStatus<P>>) -> nat
    decreases results.len(),
{
    if results.len() == 0 {
        0
    } else {
        available_in(results.drop_last()) + if results.last().availability@ is Available {
            1nat
        } else {
            0nat
        }
    }
}

/// The results of a generation as the interface shows them.
pub struct ResultsBoard<P> {
    suggestions: Vec<String>,
    results: Vec<DomainStatus<P>>,
    progress: Option<(usize, usize)>,
    is_busy: bool,
    error_message: Option<String>,
}

impl<P> ResultsBoard<P> {
    #[verifier::type_invariant]
    spec fn domains_distinct(self) -> bool {
        distinct_domains(self.results@)
    }

    pub closed spec fn suggestions_view(self) -> Seq<Seq<char>> {
        self.suggestions.deep_view()
    }

    pub closed spec fn results_view(self) -> Seq<DomainStatus<P>> {
        self.results@
    }

    pub closed spec fn progress_view(self) -> Option<(usize, usize)> {
        self.progress
    }

    pub closed spec fn busy_view(self) -> bool {
        self.is_busy
    }

    pub closed spec fn error_view(self) -> Option<Seq<char>> {
        match self.error_message {
            Some(e) => Some(e@),
            None => None,
        }
    }

    /// An empty board: nothing generated, not busy.
    pub fn new() -> (b: Self)
        ensures
            b.suggestions_view().len() == 0,
            b.results_view().len() == 0,
            b.progress_view() is None,
            !b.busy_view(),
            b.error_view() is None,
    {
        ResultsBoard {
            suggestions: Vec::new(),
            results: Vec::new(),
            progress: None,
            is_busy: false,
            error_message: None,
        }
    }

    pub fn suggestions(&self) -> (r: &Vec<String>)
        ensures
            r.deep_view() == self.suggestions_view(),
    {
        &self.suggestions
    }

    /// The checked domains; no domain occurs twice.
    pub fn results(&self) -> (r: &Vec<DomainStatus<P>>)
        ensures
            r@ == self.results_view(),
            distinct_domains(r@),
    {
        proof {
            use_type_invariant(self);
        }
        &self.results
    }

    pub fn progress(&self) -> (r: Option<(usize, usize)>)
        ensures
            r == self.progress_view(),
    {
        self.progress
    }

    pub fn is_busy(&self) -> (r: bool)
        ensures
            r == self.busy_view(),
    {
        self.is_busy
    }

    pub fn error_message(&self) -> (r: &Option<String>)
        ensures
            (match r {
                Some(e) => Some(e@),
                None => None,
            }) == self.error_view(),
    {
        &self.error_message
    }

    /// The number of checked domains that are available.
    pub fn available_count(&self) -> (n: usize)
        ensures
            n == available_in(self.results_view()),
    {
        let mut n: usize = 0;
        for i in 0..self.results.len()
            invariant
                n == available_in(self.results@.take(i as int)),
                n <= i,
        {
            proof {
                assert(self.results@.take(i + 1).drop_last() =~= self.results@.take(i as int));
            }
            if self.results[i].availability.is_available() {
                n = n + 1;
            }
        }
        assert(self.results@.take(self.results.len() as int) =~= self.results@);
        n
    }

    fn index_of(&self, domain: &str) -> (r: Option<usize>)
        ensures
            r matches Some(i) ==> i < self.results@.len() && self.results@[i as int].domain@ == domain@,
            r is None ==> forall|i: int|
                0 <= i < self.results@.len() ==> #[trigger] self.results@[i].domain@ != domain@,
    {
        for i in 0..self.results.len()
            invariant
                forall|j: int| 0 <= j < i ==> #[trigger] self.results@[j].domain@ != domain@,
        {
            if str_eq(self.results[i].domain.as_str(), domain) {
                return Some(i);
            }
        }
        None
    }

    /// Apply a result from the worker. Returns the models of an
    /// `OpenRouterModels` result, which belong to the settings.
    pub fn apply(&mut self, result: WorkerResult<P>) -> (models: Option<Vec<(String, String)>>)
        ensures
            applied(*old(self), *final(self), result),
            models == (match result {
                WorkerResult::OpenRouterModels(m) => Some(m),
                _ => None,
            }),
    {
        proof {
            use_type_invariant(&*self);
        }
        match result {
            WorkerResult::Suggestions(names) => {
                self.suggestions = names;
                self.error_message = None;
                None
            },
            WorkerResult::DomainResult(status) => {
                let ghost old_results = self.results@;
                let ghost st = status;
                proof {
                    law_upsert_keeps_domains_distinct(old_results, st);
                }
                let found = self.index_of(status.domain.as_str());
                let mut results: Vec<DomainStatus<P>> = Vec::new();
                std::mem::swap(&mut results, &mut self.results);
                match found {
                    Some(i) => {
                        proof {
                            let j = choose|j: int|
                                0 <= j < old_results.len() && #[trigger] old_results[j].domain@
                                    == status.domain@;
                            if j != i {
                                if j < i {
                                    assert(old_results[j].domain@ != old_results[i as int].domain@);
                                } else {
                                    assert(old_results[i as int].domain@ != old_results[j].domain@);
                                }
                            }
                        }
                        results.set(i, status);
                        assert(results@ == upserted(old_results, st));
                    },
                    None => {
                        results.push(status);
                        assert(results@ == upserted(old_results, st));
                    },
                }
                self.results = results;
                None
            },
            WorkerResult::Progress { checked, total } => {
                self.progress = Some((checked, total));
                None
            },
            WorkerResult::Error(msg) => {
                self.error_message = Some(msg);
                self.is_busy = false;
                None
            },
            WorkerResult::Done => {
                self.is_busy = false;
                None
            },
            WorkerResult::OpenRouterModels(models) => Some(models),
        }
    }

    /// Start a generation: clear the previous results and become busy; a
    /// refused command (no TLDs selected) is reported as the error instead.
    /// Returns the command to send to the worker.
    pub fn start_generation(&mut self, command: Result<WorkerCommand, String>) -> (r: Option<
        WorkerCommand,
    >)
        ensures
            final(self).suggestions_view().len() == 0,
            final(self).results_view().len() == 0,
            final(self).progress_view() is None,
            match command {
                Ok(c) => {
                    &&& r == Some(c)
                    &&& final(self).busy_view()
                    &&& final(self).error_view() is None
                },
                Err(e) => {
                    &&& r is None
                    &&& !final(self).busy_view()
                    &&& final(self).error_view() == Some(e@)
                },
            },
    {
        proof {
            use_type_invariant(&*self);
        }
        self.is_busy = true;
        self.results = Vec::new();
        self.suggestions = Vec::new();
        self.progress = None;
        self.error_message = None;
        match command {
            Ok(c) => Some(c),
            Err(e) => {
                self.error_message = Some(e);
                self.is_busy = false;
                None
            },
        }
    }
}

/// Take one result from the worker: the board applies it, and a model list
/// goes to the settings, with its first model selected. Other results leave
/// the settings as they were.
pub fn receive<P>(board: &mut ResultsBoard<P>, settings: &mut SettingsState, result: WorkerResult<P>)
    ensures
        applied(*old(board), *final(board), result),
        match result {
            WorkerResult::OpenRouterModels(m) => *final(settings) == with_models(*old(settings), m),
            _ => *final(settings) == *old(settings),
        },
{
    if let Some(models) = board.apply(result) {
        settings.set_openrouter_models(models);
    }
}

/// The statuses after a batch of results from the worker: each domain
/// result upserted in turn, other results leaving them as they are.
pub open spec fn results_after<P>(rs: Seq<DomainStatus<P>>, batch: Seq<WorkerResult<P>>) -> Seq<DomainStatus<P>>
    decreases batch.len(),
{
    if batch.len() == 0 {
        rs
    } else {
        let prev = results_after(rs, batch.drop_last());
        match batch.last() {
            WorkerResult::DomainResult(st) => upserted(prev, st),
            _ => prev,
        }
    }
}

/// The settings after a batch of results: each model list taken in turn,
/// with its first model selected.
pub open spec fn settings_after<P>(s: SettingsState, batch: Seq<WorkerResult<P>>) -> SettingsState
    decreases batch.len(),
{
    if batch.len() == 0 {
        s
    } else {
        let prev = settings_after(s, batch.drop_last());
        match batch.last() {
            WorkerResult::OpenRouterModels(m) => with_models(prev, m),
            _ => prev,
        }
    }
}

/// Whether a batch ends the work: it holds a `Done` or an `Error`.
pub open spec fn ends_work<P>(batch: Seq<WorkerResult<P>>) -> bool {
    exists|i: int| 0 <= i < batch.len() && (#[trigger] batch[i] is Done || batch[i] is Error)
}

/// Take a batch of results from the worker, in order (see `receive`).
pub fn receive_all<P>(board: &mut ResultsBoard<P>, settings: &mut SettingsState, batch: Vec<WorkerResult<P>>)
    ensures
        final(board).results_view() == results_after(old(board).results_view(), batch@),
        distinct_domains(final(board).results_view()),
        ends_work(batch@) ==> !final(board).busy_view(),
        !ends_work(batch@) ==> final(board).busy_view() == old(board).busy_view(),
        *final(settings) == settings_after(*old(settings), batch@),
{
    let ghost r0 = board.results_view();
    let ghost b0 = board.busy_view();
    let ghost s0 = *settings;
    let ghost all = batch@;
    let n = batch.len();
    let mut rest = batch;
    let mut k: usize = 0;
    assert(all.take(0) =~= Seq::<WorkerResult<P>>::empty());
    assert(all.skip(0) =~= all);
    while rest.len() > 0
        invariant
            k <= all.len(),
            all.len() == n,
            rest@ == all.skip(k as int),
            board.results_view() == results_after(r0, all.take(k as int)),
            *settings == settings_after(s0, all.take(k as int)),
            ends_work(all.take(k as int)) ==> !board.busy_view(),
            !ends_work(all.take(k as int)) ==> board.busy_view() == b0,
        decreases rest.len(),
    {
        let ghost before = all.take(k as int);
        let r = rest.remove(0);
        assert(r == all[k as int]);
        let ghost after = all.take(k + 1);
        assert(after.drop_last() =~= before);
        assert(after.last() == r);
        receive(board, settings, r);
        assert(rest@ =~= all.skip(k + 1));
        proof {
            if ends_work(after) {
                if !(r is Done || r is Error) {
                    let i = choose|i: int| 0 <= i < after.len() && (#[trigger] after[i] is Done || after[i] is Error);
                    assert(i < before.len());
                    assert(before[i] == after[i]);
                    assert(ends_work(before));
                }
            } else {
                assert(!(after[k as int] is Done || after[k as int] is Error));
                if ends_work(before) {
                    let i = choose|i: int| 0 <= i < before.len() && (#[trigger] before[i] is Done || before[i] is Error);
                    assert(after[i] == before[i]);
                }
            }
        }
        k = k + 1;
    }
    assert(all.take(k as int) =~= all);
    proof {
        use_type_invariant(&*board);
    }
}

/// However many results the worker sends, no domain appears twice among
/// the checked statuses.
pub proof fn law_batch_keeps_domains_distinct<P>(rs: Seq<DomainStatus<P>>, batch: Seq<WorkerResult<P>>)
    requires
        distinct_domains(rs),
    ensures
        distinct_domains(results_after(rs, batch)),
    decreases batch.len(),
{
    if batch.len() > 0 {
        law_batch_keeps_domains_distinct(rs, batch.drop_last());
        if let WorkerResult::DomainResult(st) = batch.last() {
            law_upsert_keeps_domains_distinct(results_after(rs, batch.drop_last()), st);
        }
    }
}

/// `after` is the board `before` with `result` applied: new suggestions
/// replace the old ones and clear the error; a domain's status is upserted;
/// progress is recorded; an error is recorded and ends the busy state;
/// `Done` ends the busy state; a model list leaves the board as it was.
pub open spec fn applied<P>(before: ResultsBoard<P>, after: ResultsBoard<P>, result: WorkerResult<P>) -> bool {
    match result {
        WorkerResult::Suggestions(names) => {
            &&& after.suggestions_view() == names.deep_view()
            &&& after.error_view() is None
            &&& after.results_view() == before.results_view()
            &&& after.progress_view() == before.progress_view()
            &&& after.busy_view() == before.busy_view()
        },
        WorkerResult::DomainResult(status) => {
            &&& after.results_view() == upserted(before.results_view(), status)
            &&& after.suggestions_view() == before.suggestions_view()
            &&& after.error_view() == before.error_view()
            &&& after.progress_view() == before.progress_view()
            &&& after.busy_view() == before.busy_view()
        },
        WorkerResult::Progress { checked, total } => {
            &&& after.progress_view() == Some((checked, total))
            &&& after.results_view() == before.results_view()
            &&& after.suggestions_view() == before.suggestions_view()
            &&& after.error_view() == before.error_view()
            &&& after.busy_view() == before.busy_view()
        },
        WorkerResult::Error(msg) => {
            &&& after.error_view() == Some(msg@)
            &&& !after.busy_view()
            &&& after.results_view() == before.results_view()
            &&& after.suggestions_view() == before.suggestions_view()
            &&& after.progress_view() == before.progress_view()
        },
        WorkerResult::Done => {
            &&& !after.busy_view()
            &&& after.error_view() == before.error_view()
            &&& after.results_view() == before.results_view()
            &&& after.suggestions_view() == before.suggestions_view()
            &&& after.progress_view() == before.progress_view()
        },
        WorkerResult::OpenRouterModels(_) => {
            &&& after.error_view() == before.error_view()
            &&& after.busy_view() == before.busy_view()
            &&& after.results_view() == before.results_view()
            &&& after.suggestions_view() == before.suggestions_view()
            &&& after.progress_view() == before.progress_view()
        },
    }
}

/// A status for a new domain is appended; one for a listed domain replaces
/// it in place, so the list keeps its length and no domain appears twice.
pub proof fn law_upsert_keeps_domains_distinct<P>(results: Seq<DomainStatus<P>>, status: DomainStatus<P>)
    requires
        distinct_domains(results),
    ensures
        distinct_domains(upserted(results, status)),
        upserted(results, status).contains(status),
        domains_of(results).contains(status.domain@) ==> upserted(results, status).len() == results.len(),
        !domains_of(results).contains(status.domain@) ==> upserted(results, status).len() == results.len() + 1,
{
    if exists|i: int| 0 <= i < results.len() && #[trigger] results[i].domain@ == status.domain@ {
        let i = choose|i: int| 0 <= i < results.len() && #[trigger] results[i].domain@ == status.domain@;
        let u = results.update(i, status);
        assert(u[i] == status);
        assert(domains_of(results).contains(status.domain@)) by {
            assert(domains_of(results)[i] == status.domain@);
        }
        assert(distinct_domains(u)) by {
            assert forall|a: int, b: int| 0 <= a < b < u.len() implies #[trigger] u[a].domain@ != #[trigger] u[b].domain@ by {
                if a != i && b != i {
                    assert(u[a] == results[a] && u[b] == results[b]);
                } else if a == i {
                    assert(u[b] == results[b]);
                    assert(results[i].domain@ != results[b].domain@);
                } else {
                    assert(u[a] == results[a]);
                    assert(results[a].domain@ != results[i].domain@);
                }
            }
        }
    } else {
        let u = results.push(status);
        assert(u[results.len() as int] == status);
        assert(forall|k: int| 0 <= k < results.len() ==> #[trigger] results[k].domain@ != status.domain@);
        if domains_of(results).contains(status.domain@) {
            let k = choose|k: int| 0 <= k < domains_of(results).len() && domains_of(results)[k] == status.domain@;
            assert(results[k].domain@ == status.domain@);
        }
        assert(distinct_domains(u)) by {
            assert forall|a: int, b: int| 0 <= a < b < u.len() implies #[trigger] u[a].domain@ != #[trigger] u[b].domain@ by {
                if b < results.len() {
                    assert(u[a] == results[a] && u[b] == results[b]);
                    assert(results[a].domain@ != results[b].domain@);
                } else {
                    assert(b == results.len());
                    assert(u[a] == results[a]);
                    assert(u[b] == status);
                    assert(results[a].domain@ != status.domain@);
                }
            }
        }
    }
}

} // verus!
