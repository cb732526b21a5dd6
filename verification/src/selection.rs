//! Choosing the execution path of one call. The three strategies are one
//! machine: it names the path to try next, takes in how the attempt went,
//! and in the end gives the result together with the path to remember, if
//! any. Running an attempt is the caller's part.

use vstd::prelude::*;
use crate::inference::{CoreError, ExecutionProvider, InferenceRequest, InferenceResult};
use crate::provider::{backend_error, has_provider, provider_label, ProviderChoice};

verus! {

/// How the candidates of a call are gone through.
#[derive(Debug, Clone, Copy, PartialEq, Eq, Structural)]
pub enum Strategy {
    /// Try the candidates in order; the first success wins.
    Sequential,
    /// Try a remembered path alone; failing that, try every candidate and
    /// take the fastest.
    Benchmark,
    /// Try a remembered path alone, if it is a candidate; failing that, try
    /// the candidates in order.
    CachedFirst,
}

/// The strategy for a mode: an explicit mode is sequential, and `Auto`
/// benchmarks where that is asked for and else goes by the cache.
pub open spec fn strategy_for(mode: ExecutionProvider, benchmark: bool) -> Strategy {
    if mode != ExecutionProvider::Auto {
        Strategy::Sequential
    } else if benchmark {
        Strategy::Benchmark
    } else {
        Strategy::CachedFirst
    }
}

pub fn select_strategy(request: &InferenceRequest) -> (strategy: Strategy)
    ensures
        strategy == strategy_for(request.execution_provider, request.benchmark_provider),
{
    match request.execution_provider {
        ExecutionProvider::Auto => {
            if request.benchmark_provider {
                Strategy::Benchmark
            } else {
                Strategy::CachedFirst
            }
        },
        _ => Strategy::Sequential,
    }
}

/// An attempt that succeeded: what it returned and how long it took.
#[derive(Debug)]
pub struct Attempted {
    pub result: InferenceResult,
    pub elapsed_ms: u128,
}

/// The fastest success so far.
#[derive(Debug)]
pub struct Winner {
    pub result: InferenceResult,
    pub provider: ProviderChoice,
    pub elapsed_ms: u128,
}

/// A success that ends the run at once.
#[derive(Debug)]
pub struct Settled {
    pub result: InferenceResult,
    pub persist: Option<ProviderChoice>,
}

/// What a run ends with: the result for the caller, and the path to
/// remember for the context of the call, if one is to be remembered.
#[derive(Debug)]
pub struct SelectionEnd {
    pub result: Result<InferenceResult, CoreError>,
    pub persist: Option<ProviderChoice>,
}

/// The run of one call through its candidates.
#[derive(Debug)]
pub struct Selection {
    strategy: Strategy,
    candidates: Vec<ProviderChoice>,
    /// The remembered path, while it is still to be tried.
    try_cached: Option<ProviderChoice>,
    /// The index of the next candidate.
    next: usize,
    /// The candidates that failed, each with the reason.
    failures: Vec<(ProviderChoice, String)>,
    best: Option<Winner>,
    settled: Option<Settled>,
}

pub struct SelectionView {
    pub strategy: Strategy,
    pub candidates: Seq<ProviderChoice>,
    pub try_cached: Option<ProviderChoice>,
    pub next: int,
    pub failures: Seq<(ProviderChoice, String)>,
    pub best: Option<Winner>,
    pub settled: Option<Settled>,
}

/// The end of a run as a value of the model: the result, or the text of the
/// backend error.
pub struct EndView {
    pub result: Result<InferenceResult, Seq<char>>,
    pub persist: Option<ProviderChoice>,
}

impl View for Selection {
    type V = SelectionView;

    closed spec fn view(&self) -> SelectionView {
        SelectionView {
            strategy: self.strategy,
            candidates: self.candidates@,
            try_cached: self.try_cached,
            next: self.next as int,
            failures: self.failures@,
            best: self.best,
            settled: self.settled,
        }
    }
}

/// The texts joined by ` | `.
pub open spec fn joined(parts: Seq<Seq<char>>) -> Seq<char>
    decreases parts.len(),
{
    if parts.len() == 0 {
        Seq::empty()
    } else if parts.len() == 1 {
        parts[0]
    } else {
        joined(parts.drop_last()) + " | "@ + parts.last()
    }
}

/// One failure as text: the name of the path, a colon, the reason.
pub open spec fn failure_text(failure: (ProviderChoice, String)) -> Seq<char> {
    failure.0.label_text() + ": "@ + failure.1@
}

/// The failures as texts.
pub open spec fn failure_texts(failures: Seq<(ProviderChoice, String)>) -> Seq<Seq<char>> {
    Seq::new(failures.len(), |i: int| failure_text(failures[i]))
}

/// The text of the error for a run in which every candidate failed.
pub open spec fn exhausted_text(strategy: Strategy, failures: Seq<(ProviderChoice, String)>) -> Seq<
    char,
> {
    (match strategy {
        Strategy::Sequential => "provider-exhausted"@ + ": "@ + ("all providers failed: "@ + joined(
            failure_texts(failures),
        )),
        Strategy::Benchmark => "benchmark-failed"@ + ": "@ + (
        "auto provider benchmark failed: "@ + joined(failure_texts(failures))),
        Strategy::CachedFirst => "auto-provider-failed"@ + ": "@ + ("all providers failed: "@
            + joined(failure_texts(failures))),
    })
}

/// The remembered path as far as a strategy tries it first: never in a
/// sequential run, always in a benchmark, and in a cached-first run where it
/// is among the candidates.
pub open spec fn cached_first_try(
    strategy: Strategy,
    candidates: Seq<ProviderChoice>,
    cached: Option<ProviderChoice>,
) -> Option<ProviderChoice> {
    match strategy {
        Strategy::Sequential => None,
        Strategy::Benchmark => cached,
        Strategy::CachedFirst => if cached is Some && candidates.contains(cached->0) {
            cached
        } else {
            None
        },
    }
}

/// The run before its first attempt.
pub open spec fn begun(
    strategy: Strategy,
    candidates: Seq<ProviderChoice>,
    cached: Option<ProviderChoice>,
) -> SelectionView {
    SelectionView {
        strategy,
        candidates,
        try_cached: cached_first_try(strategy, candidates, cached),
        next: 0,
        failures: Seq::empty(),
        best: None,
        settled: None,
    }
}

impl SelectionView {
    pub open spec fn well_formed(self) -> bool {
        0 <= self.next <= self.candidates.len() && self.candidates.len() > 0
    }

    /// The path to try next; `None` once the run is over.
    pub open spec fn pending(self) -> Option<ProviderChoice> {
        if self.settled is Some {
            None
        } else if self.try_cached is Some {
            self.try_cached
        } else if self.next < self.candidates.len() {
            Some(self.candidates[self.next])
        } else {
            None
        }
    }

    /// The run after the pending attempt went as `outcome` says. A success
    /// of the remembered path settles the run, and its failure is passed
    /// over. A success of a candidate settles a sequential run, with the
    /// hardware-fallback flag set unless the candidate is the first, and a
    /// cached-first run, naming the candidate to be remembered; in a
    /// benchmark it becomes the best so far where it is strictly faster than
    /// the best before it. A failure of a candidate is noted with its
    /// reason.
    pub open spec fn advanced(self, outcome: Result<Attempted, String>) -> SelectionView {
        if self.try_cached is Some {
            match outcome {
                Ok(done) => SelectionView {
                    try_cached: None,
                    settled: Some(Settled { result: done.result, persist: None }),
                    ..self
                },
                Err(_) => SelectionView { try_cached: None, ..self },
            }
        } else {
            let provider = self.candidates[self.next];
            match outcome {
                Err(reason) => SelectionView {
                    next: self.next + 1,
                    failures: self.failures.push((provider, reason)),
                    ..self
                },
                Ok(done) => match self.strategy {
                    Strategy::Sequential => SelectionView {
                        next: self.next + 1,
                        settled: Some(
                            Settled {
                                result: InferenceResult {
                                    fallback_used: provider != self.candidates[0],
                                    ..done.result
                                },
                                persist: None,
                            },
                        ),
                        ..self
                    },
                    Strategy::CachedFirst => SelectionView {
                        next: self.next + 1,
                        settled: Some(Settled { result: done.result, persist: Some(provider) }),
                        ..self
                    },
                    Strategy::Benchmark => if self.best is None || done.elapsed_ms
                        < self.best->0.elapsed_ms {
                        SelectionView {
                            next: self.next + 1,
                            best: Some(
                                Winner {
                                    result: done.result,
                                    provider,
                                    elapsed_ms: done.elapsed_ms,
                                },
                            ),
                            ..self
                        }
                    } else {
                        SelectionView { next: self.next + 1, ..self }
                    },
                },
            }
        }
    }

    /// What the run ends with, once nothing is pending: the success that
    /// settled it; else the fastest success, which is also the path to
    /// remember; else the error that lists every failure.
    pub open spec fn end(self) -> EndView {
        if self.settled is Some {
            EndView { result: Ok(self.settled->0.result), persist: self.settled->0.persist }
        } else if self.best is Some {
            EndView { result: Ok(self.best->0.result), persist: Some(self.best->0.provider) }
        } else {
            EndView { result: Err(exhausted_text(self.strategy, self.failures)), persist: None }
        }
    }

    /// The run after the attempts went as `outcomes` say, one after the
    /// other; outcomes beyond the end of the run are not looked at.
    pub open spec fn run(self, outcomes: Seq<Result<Attempted, String>>) -> SelectionView
        decreases outcomes.len(),
    {
        if outcomes.len() == 0 || self.pending() is None {
            self
        } else {
            self.advanced(outcomes[0]).run(outcomes.drop_first())
        }
    }

    /// The paths that are tried, in order, where the attempts go as
    /// `outcomes` say.
    pub open spec fn attempts(self, outcomes: Seq<Result<Attempted, String>>) -> Seq<ProviderChoice>
        decreases outcomes.len(),
    {
        if outcomes.len() == 0 || self.pending() is None {
            Seq::empty()
        } else {
            seq![self.pending()->0] + self.advanced(outcomes[0]).attempts(outcomes.drop_first())
        }
    }
}

fn join_failures(failures: &Vec<(ProviderChoice, String)>) -> (text: String)
    ensures
        text@ == joined(failure_texts(failures@)),
{
    let mut text: String = String::new();
    let ghost parts = failure_texts(failures@);
    let mut i: usize = 0;
    assert(parts.take(0) =~= Seq::empty());
    while i < failures.len()
        invariant
            i <= failures.len(),
            parts == failure_texts(failures@),
            text@ == joined(parts.take(i as int)),
        decreases failures.len() - i,
    {
        proof {
            let grown = parts.take(i + 1);
            assert(grown.drop_last() =~= parts.take(i as int));
            assert(grown.last() == failure_text(failures@[i as int]));
            if i == 0 {
                assert(Seq::<char>::empty() + failures@[0].0.label_text() + ": "@
                    + failures@[0].1@ =~= failure_text(failures@[0]));
            }
        }
        if i > 0 {
            text.append(" | ");
        }
        text.append(provider_label(failures[i].0));
        text.append(": ");
        text.append(failures[i].1.as_str());
        assert(text@ =~= joined(parts.take(i + 1)));
        i = i + 1;
    }
    assert(parts.take(i as int) =~= parts);
    text
}

impl Selection {
    /// Starts the run of a call over its candidates, of which there is at
    /// least one, with the path remembered for the context of the call, if
    /// there is one.
    pub fn begin(strategy: Strategy, candidates: Vec<ProviderChoice>, cached: Option<ProviderChoice>) -> (s:
        Selection)
        requires
            candidates.len() > 0,
        ensures
            s@ == begun(strategy, candidates@, cached),
            s@.well_formed(),
    {
        let try_cached: Option<ProviderChoice> = match strategy {
            Strategy::Sequential => None,
            Strategy::Benchmark => cached,
            Strategy::CachedFirst => match cached {
                Some(c) => if has_provider(&candidates, c) {
                    cached
                } else {
                    None
                },
                None => None,
            },
        };
        Selection {
            strategy,
            candidates,
            try_cached,
            next: 0,
            failures: Vec::new(),
            best: None,
            settled: None,
        }
    }

    /// The path to try next; `None` once the run is over.
    pub fn pending(&self) -> (p: Option<ProviderChoice>)
        requires
            self@.well_formed(),
        ensures
            p == self@.pending(),
    {
        if self.settled.is_some() {
            None
        } else if self.try_cached.is_some() {
            self.try_cached
        } else if self.next < self.candidates.len() {
            Some(self.candidates[self.next])
        } else {
            None
        }
    }

    /// Takes in how the pending attempt went.
    pub fn record(&mut self, outcome: Result<Attempted, String>)
        requires
            old(self)@.well_formed(),
            old(self)@.pending() is Some,
        ensures
            final(self)@ == old(self)@.advanced(outcome),
            final(self)@.well_formed(),
    {
        if self.try_cached.is_some() {
            self.try_cached = None;
            match outcome {
                Ok(done) => {
                    self.settled = Some(Settled { result: done.result, persist: None });
                },
                Err(_) => {},
            }
        } else {
            let provider: ProviderChoice = self.candidates[self.next];
            let first: ProviderChoice = self.candidates[0];
            assert(self.next < self.candidates.len());
            self.next = self.next + 1;
            match outcome {
                Err(reason) => {
                    self.failures.push((provider, reason));
                },
                Ok(done) => {
                    match self.strategy {
                        Strategy::Sequential => {
                            let mut result: InferenceResult = done.result;
                            result.fallback_used = provider != first;
                            self.settled = Some(Settled { result, persist: None });
                        },
                        Strategy::CachedFirst => {
                            self.settled = Some(
                                Settled { result: done.result, persist: Some(provider) },
                            );
                        },
                        Strategy::Benchmark => {
                            let faster: bool = match &self.best {
                                Some(best) => done.elapsed_ms < best.elapsed_ms,
                                None => true,
                            };
                            if faster {
                                self.best = Some(
                                    Winner {
                                        result: done.result,
                                        provider,
                                        elapsed_ms: done.elapsed_ms,
                                    },
                                );
                            }
                        },
                    }
                },
            }
        }
    }

    /// Ends the run, once nothing is pending.
    pub fn finish(self) -> (end: SelectionEnd)
        requires
            self@.well_formed(),
            self@.pending() is None,
        ensures
            end.persist == self@.end().persist,
            match end.result {
                Ok(result) => self@.end().result == Ok::<InferenceResult, Seq<char>>(result),
                Err(e) => e is Backend && self@.end().result == Err::<InferenceResult, Seq<char>>(
                    e->Backend_0@,
                ),
            },
    {
        match self.settled {
            Some(settled) => SelectionEnd { result: Ok(settled.result), persist: settled.persist },
            None => match self.best {
                Some(best) => SelectionEnd {
                    result: Ok(best.result),
                    persist: Some(best.provider),
                },
                None => {
                    let listed: String = join_failures(&self.failures);
                    let error: CoreError = match self.strategy {
                        Strategy::Sequential => {
                            let mut message: String = "all providers failed: ".to_string();
                            message.append(listed.as_str());
                            backend_error("provider-exhausted", message)
                        },
                        Strategy::Benchmark => {
                            let mut message: String = "auto provider benchmark failed: ".to_string();
                            message.append(listed.as_str());
                            backend_error("benchmark-failed", message)
                        },
                        Strategy::CachedFirst => {
                            let mut message: String = "all providers failed: ".to_string();
                            message.append(listed.as_str());
                            backend_error("auto-provider-failed", message)
                        },
                    };
                    SelectionEnd { result: Err(error), persist: None }
                },
            },
        }
    }
}

proof fn lemma_sequential_scan(
    s: SelectionView,
    all: Seq<Result<Attempted, String>>,
    k: int,
    w: int,
)
    requires
        s.strategy == Strategy::Sequential,
        s.try_cached is None,
        s.settled is None,
        s.best is None,
        s.candidates.len() > 0,
        0 <= k <= w < s.candidates.len(),
        w < all.len(),
        s.next == k,
        forall|i: int| 0 <= i < w ==> (#[trigger] all[i]) is Err,
        all[w] is Ok,
    ensures
        s.run(all.skip(k)).pending() is None,
        s.run(all.skip(k)).end() == (EndView {
            result: Ok(
                InferenceResult {
                    fallback_used: s.candidates[w] != s.candidates[0],
                    ..all[w]->Ok_0.result
                },
            ),
            persist: None,
        }),
        s.attempts(all.skip(k)) == s.candidates.subrange(k, w + 1),
    decreases w - k,
{
    let rest = all.skip(k);
    assert(rest[0] == all[k]);
    assert(rest.drop_first() =~= all.skip(k + 1));
    let t = s.advanced(all[k]);
    if k == w {
        assert(t.pending() is None);
        assert(t.run(rest.drop_first()) == t);
        assert(t.attempts(rest.drop_first()) =~= Seq::empty());
        assert(s.attempts(rest) =~= s.candidates.subrange(k, w + 1));
    } else {
        lemma_sequential_scan(t, all, k + 1, w);
        assert(s.attempts(rest) =~= s.candidates.subrange(k, w + 1));
    }
}

/// A sequential run is won by the first candidate that succeeds. Where the
/// candidates before the `w`-th fail and the `w`-th succeeds, exactly the
/// candidates up to it are tried, in order; the run ends with its result,
/// remembers nothing, and reports the hardware fallback if and only if the
/// winner differs from the first candidate: never where the first candidate
/// succeeds, and, in a list without repetition, always where a later one
/// does.
pub proof fn lemma_sequential_first_success_wins(
    candidates: Seq<ProviderChoice>,
    cached: Option<ProviderChoice>,
    outcomes: Seq<Result<Attempted, String>>,
    w: int,
)
    requires
        0 <= w < candidates.len(),
        w < outcomes.len(),
        forall|i: int| 0 <= i < w ==> (#[trigger] outcomes[i]) is Err,
        outcomes[w] is Ok,
    ensures
        begun(Strategy::Sequential, candidates, cached).run(outcomes).pending() is None,
        begun(Strategy::Sequential, candidates, cached).run(outcomes).end() == (EndView {
            result: Ok(
                InferenceResult {
                    fallback_used: candidates[w] != candidates[0],
                    ..outcomes[w]->Ok_0.result
                },
            ),
            persist: None,
        }),
        begun(Strategy::Sequential, candidates, cached).attempts(outcomes) == candidates.take(
            w + 1,
        ),
        w == 0 ==> candidates[w] == candidates[0],
        w > 0 && candidates.no_duplicates() ==> candidates[w] != candidates[0],
{
    let s = begun(Strategy::Sequential, candidates, cached);
    assert(outcomes.skip(0) =~= outcomes);
    lemma_sequential_scan(s, outcomes, 0, w);
    assert(candidates.subrange(0, w + 1) =~= candidates.take(w + 1));
}

/// A cached-first run tries the remembered path first, if it is among the
/// candidates, and tries nothing else where that attempt succeeds: the run
/// ends with its result and has nothing new to remember. Only where it
/// fails does the run go on, with the first candidate.
pub proof fn lemma_cached_first_tries_cached_alone(
    candidates: Seq<ProviderChoice>,
    cached: ProviderChoice,
    outcomes: Seq<Result<Attempted, String>>,
)
    requires
        candidates.len() > 0,
        candidates.contains(cached),
        outcomes.len() > 0,
    ensures
        begun(Strategy::CachedFirst, candidates, Some(cached)).pending() == Some(cached),
        outcomes[0] is Ok ==> {
            &&& begun(Strategy::CachedFirst, candidates, Some(cached)).attempts(outcomes)
                == seq![cached]
            &&& begun(Strategy::CachedFirst, candidates, Some(cached)).run(outcomes).pending()
                is None
            &&& begun(Strategy::CachedFirst, candidates, Some(cached)).run(outcomes).end()
                == (EndView { result: Ok(outcomes[0]->Ok_0.result), persist: None })
        },
        outcomes[0] is Err ==> begun(Strategy::CachedFirst, candidates, Some(cached)).advanced(
            outcomes[0],
        ).pending() == Some(candidates[0]),
{
    let s = begun(Strategy::CachedFirst, candidates, Some(cached));
    let t = s.advanced(outcomes[0]);
    if outcomes[0] is Ok {
        assert(t.pending() is None);
        assert(t.run(outcomes.drop_first()) == t);
        assert(t.attempts(outcomes.drop_first()) =~= Seq::empty());
        assert(s.attempts(outcomes) =~= seq![cached]);
    }
}

/// The index of the fastest success among the outcomes, the earliest one
/// among equally fast ones; `None` where there is no success.
pub open spec fn fastest(outcomes: Seq<Result<Attempted, String>>) -> Option<int>
    decreases outcomes.len(),
{
    if outcomes.len() == 0 {
        None
    } else {
        let before = fastest(outcomes.drop_last());
        match outcomes.last() {
            Ok(done) => if before is None || done.elapsed_ms
                < outcomes[before->0]->Ok_0.elapsed_ms {
                Some(outcomes.len() - 1)
            } else {
                before
            },
            Err(_) => before,
        }
    }
}

/// `fastest` is what its name says.
pub proof fn lemma_fastest(outcomes: Seq<Result<Attempted, String>>)
    ensures
        match fastest(outcomes) {
            Some(w) => {
                &&& 0 <= w < outcomes.len()
                &&& outcomes[w] is Ok
                &&& forall|j: int|
                    0 <= j < outcomes.len() && (#[trigger] outcomes[j]) is Ok
                        ==> outcomes[w]->Ok_0.elapsed_ms <= outcomes[j]->Ok_0.elapsed_ms
                &&& forall|j: int|
                    0 <= j < w && (#[trigger] outcomes[j]) is Ok ==> outcomes[w]->Ok_0.elapsed_ms
                        < outcomes[j]->Ok_0.elapsed_ms
            },
            None => forall|j: int| 0 <= j < outcomes.len() ==> (#[trigger] outcomes[j]) is Err,
        },
    decreases outcomes.len(),
{
    if outcomes.len() > 0 {
        let front = outcomes.drop_last();
        lemma_fastest(front);
        assert(forall|j: int| 0 <= j < front.len() ==> front[j] == outcomes[j]);
    }
}

/// The best so far, as a benchmark keeps it, for the index of the fastest
/// success.
pub open spec fn winner_at(
    candidates: Seq<ProviderChoice>,
    outcomes: Seq<Result<Attempted, String>>,
    at: Option<int>,
) -> Option<Winner> {
    match at {
        Some(w) => Some(
            Winner {
                result: outcomes[w]->Ok_0.result,
                provider: candidates[w],
                elapsed_ms: outcomes[w]->Ok_0.elapsed_ms,
            },
        ),
        None => None,
    }
}

proof fn lemma_benchmark_scan(s: SelectionView, all: Seq<Result<Attempted, String>>, k: int)
    requires
        s.strategy == Strategy::Benchmark,
        s.try_cached is None,
        s.settled is None,
        s.candidates.len() > 0,
        s.candidates.len() == all.len(),
        0 <= k <= all.len(),
        s.next == k,
        s.best == winner_at(s.candidates, all, fastest(all.take(k))),
    ensures
        s.run(all.skip(k)).pending() is None,
        s.run(all.skip(k)).settled is None,
        s.run(all.skip(k)).best == winner_at(s.candidates, all, fastest(all)),
        s.run(all.skip(k)).strategy == Strategy::Benchmark,
        s.attempts(all.skip(k)) == s.candidates.skip(k),
    decreases all.len() - k,
{
    let rest = all.skip(k);
    if k == all.len() {
        assert(all.take(k) =~= all);
        assert(s.attempts(rest) =~= s.candidates.skip(k));
    } else {
        assert(rest[0] == all[k]);
        assert(rest.drop_first() =~= all.skip(k + 1));
        let grown = all.take(k + 1);
        assert(grown.drop_last() =~= all.take(k));
        assert(grown.last() == all[k]);
        lemma_fastest(all.take(k));
        let before = fastest(all.take(k));
        if before is Some {
            assert(grown[before->0] == all[before->0]);
        }
        let t = s.advanced(all[k]);
        assert(t.best == winner_at(s.candidates, all, fastest(grown)));
        lemma_benchmark_scan(t, all, k + 1);
        assert(s.attempts(rest) =~= s.candidates.skip(k));
    }
}

/// A benchmark tries every candidate and takes the fastest. With nothing
/// remembered, every candidate is tried once, in order, whatever the
/// outcomes. Where the `w`-th attempt is the success that took the least
/// time, the earliest among equally fast ones, the run ends with its result
/// and names exactly the `w`-th candidate as the path to remember.
pub proof fn lemma_benchmark_takes_the_fastest(
    candidates: Seq<ProviderChoice>,
    outcomes: Seq<Result<Attempted, String>>,
    w: int,
)
    requires
        candidates.len() > 0,
        outcomes.len() == candidates.len(),
        0 <= w < outcomes.len(),
        outcomes[w] is Ok,
        forall|j: int|
            0 <= j < outcomes.len() && (#[trigger] outcomes[j]) is Ok
                ==> outcomes[w]->Ok_0.elapsed_ms <= outcomes[j]->Ok_0.elapsed_ms,
        forall|j: int|
            0 <= j < w && (#[trigger] outcomes[j]) is Ok ==> outcomes[w]->Ok_0.elapsed_ms
                < outcomes[j]->Ok_0.elapsed_ms,
    ensures
        begun(Strategy::Benchmark, candidates, None).attempts(outcomes) == candidates,
        begun(Strategy::Benchmark, candidates, None).run(outcomes).pending() is None,
        begun(Strategy::Benchmark, candidates, None).run(outcomes).end() == (EndView {
            result: Ok(outcomes[w]->Ok_0.result),
            persist: Some(candidates[w]),
        }),
{
    let s = begun(Strategy::Benchmark, candidates, None);
    assert(outcomes.skip(0) =~= outcomes);
    assert(outcomes.take(0) =~= Seq::empty());
    lemma_benchmark_scan(s, outcomes, 0);
    assert(candidates.skip(0) =~= candidates);
    lemma_fastest(outcomes);
    let f = fastest(outcomes);
    assert(f is Some);
    assert(f->0 == w);
}

/// The failures of a run in which every attempt fails: each candidate with
/// the reason its attempt gave, in order.
pub open spec fn all_failures(
    candidates: Seq<ProviderChoice>,
    outcomes: Seq<Result<Attempted, String>>,
) -> Seq<(ProviderChoice, String)> {
    Seq::new(candidates.len(), |i: int| (candidates[i], outcomes[i]->Err_0))
}

proof fn lemma_failing_scan(s: SelectionView, all: Seq<Result<Attempted, String>>, k: int)
    requires
        s.try_cached is None,
        s.settled is None,
        s.best is None,
        s.candidates.len() > 0,
        s.candidates.len() == all.len(),
        0 <= k <= all.len(),
        s.next == k,
        s.failures == all_failures(s.candidates, all).take(k),
        forall|j: int| 0 <= j < all.len() ==> (#[trigger] all[j]) is Err,
    ensures
        s.run(all.skip(k)).pending() is None,
        s.run(all.skip(k)).end() == (EndView {
            result: Err(exhausted_text(s.strategy, all_failures(s.candidates, all))),
            persist: None,
        }),
        s.attempts(all.skip(k)) == s.candidates.skip(k),
    decreases all.len() - k,
{
    let rest = all.skip(k);
    let listed = all_failures(s.candidates, all);
    if k == all.len() {
        assert(listed.take(k) =~= listed);
        assert(s.attempts(rest) =~= s.candidates.skip(k));
    } else {
        assert(rest[0] == all[k]);
        assert(all[k] is Err);
        assert(rest.drop_first() =~= all.skip(k + 1));
        let t = s.advanced(all[k]);
        assert(t.failures =~= listed.take(k + 1));
        lemma_failing_scan(t, all, k + 1);
        assert(s.attempts(rest) =~= s.candidates.skip(k));
    }
}

/// Where every candidate fails, whatever the strategy, each candidate is
/// tried once, in order, and the run ends in the one error that lists every
/// failure with its reason; nothing is remembered.
pub proof fn lemma_every_failure_is_listed(
    strategy: Strategy,
    candidates: Seq<ProviderChoice>,
    outcomes: Seq<Result<Attempted, String>>,
)
    requires
        candidates.len() > 0,
        outcomes.len() == candidates.len(),
        forall|j: int| 0 <= j < outcomes.len() ==> (#[trigger] outcomes[j]) is Err,
    ensures
        begun(strategy, candidates, None).attempts(outcomes) == candidates,
        begun(strategy, candidates, None).run(outcomes).pending() is None,
        begun(strategy, candidates, None).run(outcomes).end() == (EndView {
            result: Err(exhausted_text(strategy, all_failures(candidates, outcomes))),
            persist: None,
        }),
{
    let s = begun(strategy, candidates, None);
    assert(outcomes.skip(0) =~= outcomes);
    assert(all_failures(candidates, outcomes).take(0) =~= Seq::empty());
    lemma_failing_scan(s, outcomes, 0);
    assert(candidates.skip(0) =~= candidates);
}

/// In a benchmark too a remembered path is tried first and alone: where it
/// succeeds the run ends with its result, and the full benchmark follows
/// only where it fails.
pub proof fn lemma_benchmark_tries_cached_first(
    candidates: Seq<ProviderChoice>,
    cached: ProviderChoice,
    outcome: Result<Attempted, String>,
)
    requires
        candidates.len() > 0,
    ensures
        begun(Strategy::Benchmark, candidates, Some(cached)).pending() == Some(cached),
        outcome is Ok ==> begun(Strategy::Benchmark, candidates, Some(cached)).advanced(
            outcome,
        ).pending() is None && begun(Strategy::Benchmark, candidates, Some(cached)).advanced(
            outcome,
        ).end() == (EndView { result: Ok(outcome->Ok_0.result), persist: None }),
        outcome is Err ==> begun(Strategy::Benchmark, candidates, Some(cached)).advanced(outcome)
            == begun(Strategy::Benchmark, candidates, None),
{
}


} // verus!
