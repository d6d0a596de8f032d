//! The update loops: what each does next, and what a pass over the tracked
//! symbols does to the store.

use vstd::prelude::*;
use crate::feed::{FetchError, Quote};
use crate::state::PricePoint;
use crate::store::{
    lemma_other_symbols_untouched, lemma_tracked_is_listed, lemma_updates_keep_consistency,
    lemma_updates_keep_tracking, SnapshotStore, StoreView,
};

verus! {

/// Seconds between two quote passes.
pub const QUOTE_INTERVAL_SECS: u64 = 60;

/// Seconds between two history passes.
pub const HISTORY_INTERVAL_SECS: u64 = 300;

/// Seconds between the first quote pass and the first history pass.
pub const BOOTSTRAP_DELAY_SECS: u64 = 3;

/// What a pass fetches.
#[derive(Clone, Copy, Debug, PartialEq, Eq, Structural)]
pub enum Cadence {
    Quote,
    History,
}

/// Where a repeating loop stands.
#[derive(Clone, Copy, Debug, PartialEq, Eq, Structural)]
pub enum Phase {
    Sleeping,
    FetchingAll,
    Applying,
    /// Cancelled: nothing is done any more.
    Stopped,
}

/// What the caller of a loop is to do.
#[derive(Clone, Copy, Debug, PartialEq, Eq, Structural)]
pub enum Action {
    /// Wait for so many seconds.
    Sleep(u64),
    /// Fetch for every tracked symbol.
    FetchAll(Cadence),
    /// Hand what was fetched to the store.
    ApplyAll(Cadence),
    /// Nothing is left to do.
    Finish,
}

/// The seconds a loop of `cadence` sleeps between two passes.
pub open spec fn period_of(cadence: Cadence) -> u64 {
    match cadence {
        Cadence::Quote => QUOTE_INTERVAL_SECS,
        Cadence::History => HISTORY_INTERVAL_SECS,
    }
}

/// The phase that follows `phase`: sleep, fetch, apply, and round again. A
/// stopped loop stays stopped.
pub open spec fn phase_after(phase: Phase) -> Phase {
    match phase {
        Phase::Sleeping => Phase::FetchingAll,
        Phase::FetchingAll => Phase::Applying,
        Phase::Applying => Phase::Sleeping,
        Phase::Stopped => Phase::Stopped,
    }
}

/// What a loop of `cadence` does while in `phase`.
pub open spec fn action_in(cadence: Cadence, phase: Phase) -> Action {
    match phase {
        Phase::Sleeping => Action::Sleep(period_of(cadence)),
        Phase::FetchingAll => Action::FetchAll(cadence),
        Phase::Applying => Action::ApplyAll(cadence),
        Phase::Stopped => Action::Finish,
    }
}

/// One of the two repeating loops.
#[derive(Clone, Copy, Debug, PartialEq, Eq, Structural)]
pub struct Scheduler {
    pub cadence: Cadence,
    pub phase: Phase,
}

impl Scheduler {
    /// The quote loop as it starts: asleep, so that its first pass comes one
    /// interval after startup.
    pub fn quote_loop() -> (scheduler: Self)
        ensures
            scheduler == (Scheduler { cadence: Cadence::Quote, phase: Phase::Sleeping }),
    {
        Scheduler { cadence: Cadence::Quote, phase: Phase::Sleeping }
    }

    /// The history loop as it starts: about to fetch.
    pub fn history_loop() -> (scheduler: Self)
        ensures
            scheduler == (Scheduler { cadence: Cadence::History, phase: Phase::FetchingAll }),
    {
        Scheduler { cadence: Cadence::History, phase: Phase::FetchingAll }
    }

    /// The seconds this loop sleeps between two passes.
    pub fn period(&self) -> (seconds: u64)
        ensures
            seconds == period_of(self.cadence),
    {
        match self.cadence {
            Cadence::Quote => QUOTE_INTERVAL_SECS,
            Cadence::History => HISTORY_INTERVAL_SECS,
        }
    }

    /// What is to be done in the phase the loop is in.
    pub fn action(&self) -> (action: Action)
        ensures
            action == action_in(self.cadence, self.phase),
    {
        match self.phase {
            Phase::Sleeping => Action::Sleep(self.period()),
            Phase::FetchingAll => Action::FetchAll(self.cadence),
            Phase::Applying => Action::ApplyAll(self.cadence),
            Phase::Stopped => Action::Finish,
        }
    }

    /// Moves on once the current phase's action is done, and says what is to be
    /// done next.
    pub fn advance(&mut self) -> (action: Action)
        ensures
            final(self).cadence == old(self).cadence,
            final(self).phase == phase_after(old(self).phase),
            action == action_in(final(self).cadence, final(self).phase),
    {
        self.phase = match self.phase {
            Phase::Sleeping => Phase::FetchingAll,
            Phase::FetchingAll => Phase::Applying,
            Phase::Applying => Phase::Sleeping,
            Phase::Stopped => Phase::Stopped,
        };
        self.action()
    }

    /// Stops the loop for good, whatever phase it is in.
    pub fn cancel(&mut self)
        ensures
            final(self).cadence == old(self).cadence,
            final(self).phase == Phase::Stopped,
    {
        self.phase = Phase::Stopped;
    }
}

/// A loop that is not cancelled never comes to rest: each of its phases has a
/// successor other than itself, none is followed by `Stopped`, and the third
/// successor is the phase itself again. A cancelled loop does nothing more.
pub proof fn lemma_loop_cycles(cadence: Cadence, phase: Phase)
    ensures
        phase != Phase::Stopped ==> phase_after(phase) != phase,
        phase != Phase::Stopped ==> phase_after(phase) != Phase::Stopped,
        phase != Phase::Stopped ==> action_in(cadence, phase) != Action::Finish,
        phase_after(phase_after(phase_after(phase))) == phase,
        action_in(cadence, Phase::Stopped) == Action::Finish,
{
}

/// Where the startup sequence stands.
#[derive(Clone, Copy, Debug, PartialEq, Eq, Structural)]
pub enum BootstrapStep {
    FetchingQuotes,
    ApplyingQuotes,
    Waiting,
    FetchingHistory,
    ApplyingHistory,
    Done,
}

/// The step that follows `step`; `Done` stays `Done`.
pub open spec fn step_after(step: BootstrapStep) -> BootstrapStep {
    match step {
        BootstrapStep::FetchingQuotes => BootstrapStep::ApplyingQuotes,
        BootstrapStep::ApplyingQuotes => BootstrapStep::Waiting,
        BootstrapStep::Waiting => BootstrapStep::FetchingHistory,
        BootstrapStep::FetchingHistory => BootstrapStep::ApplyingHistory,
        BootstrapStep::ApplyingHistory => BootstrapStep::Done,
        BootstrapStep::Done => BootstrapStep::Done,
    }
}

/// What is to be done in `step`.
pub open spec fn action_at(step: BootstrapStep) -> Action {
    match step {
        BootstrapStep::FetchingQuotes => Action::FetchAll(Cadence::Quote),
        BootstrapStep::ApplyingQuotes => Action::ApplyAll(Cadence::Quote),
        BootstrapStep::Waiting => Action::Sleep(BOOTSTRAP_DELAY_SECS),
        BootstrapStep::FetchingHistory => Action::FetchAll(Cadence::History),
        BootstrapStep::ApplyingHistory => Action::ApplyAll(Cadence::History),
        BootstrapStep::Done => Action::Finish,
    }
}

impl BootstrapStep {
    /// The step the startup sequence begins with.
    pub fn first() -> (step: Self)
        ensures
            step == BootstrapStep::FetchingQuotes,
    {
        BootstrapStep::FetchingQuotes
    }

    /// What is to be done in this step.
    pub fn action(&self) -> (action: Action)
        ensures
            action == action_at(*self),
    {
        match self {
            BootstrapStep::FetchingQuotes => Action::FetchAll(Cadence::Quote),
            BootstrapStep::ApplyingQuotes => Action::ApplyAll(Cadence::Quote),
            BootstrapStep::Waiting => Action::Sleep(BOOTSTRAP_DELAY_SECS),
            BootstrapStep::FetchingHistory => Action::FetchAll(Cadence::History),
            BootstrapStep::ApplyingHistory => Action::ApplyAll(Cadence::History),
            BootstrapStep::Done => Action::Finish,
        }
    }

    /// The step that follows this one.
    pub fn next(&self) -> (step: Self)
        ensures
            step == step_after(*self),
    {
        match self {
            BootstrapStep::FetchingQuotes => BootstrapStep::ApplyingQuotes,
            BootstrapStep::ApplyingQuotes => BootstrapStep::Waiting,
            BootstrapStep::Waiting => BootstrapStep::FetchingHistory,
            BootstrapStep::FetchingHistory => BootstrapStep::ApplyingHistory,
            BootstrapStep::ApplyingHistory => BootstrapStep::Done,
            BootstrapStep::Done => BootstrapStep::Done,
        }
    }
}

/// What came of fetching a quote for one symbol.
#[derive(Debug)]
pub struct QuoteOutcome {
    pub symbol: String,
    pub outcome: Result<Quote, FetchError>,
}

/// What came of fetching a look-back series for one symbol.
#[derive(Debug)]
pub struct HistoryOutcome {
    pub symbol: String,
    pub outcome: Result<Vec<PricePoint>, FetchError>,
}

/// The store after one symbol's quote outcome: a quote is applied as observed
/// at `observed_at`, a failure changes nothing.
pub open spec fn with_quote_outcome(
    store: StoreView,
    symbol: Seq<char>,
    outcome: Result<Quote, FetchError>,
    observed_at: i64,
) -> StoreView {
    match outcome {
        Ok(quote) => store.with_quote(symbol, quote.price, quote.change_percent, observed_at),
        Err(_) => store,
    }
}

/// The store after one symbol's history outcome: a series replaces the old
/// one, a failure changes nothing.
pub open spec fn with_history_outcome(
    store: StoreView,
    symbol: Seq<char>,
    outcome: Result<Vec<PricePoint>, FetchError>,
) -> StoreView {
    match outcome {
        Ok(series) => store.with_history(symbol, series@),
        Err(_) => store,
    }
}

/// The store after the outcomes of a quote pass were applied, first to last.
pub open spec fn after_quote_pass(
    store: StoreView,
    outcomes: Seq<QuoteOutcome>,
    observed_at: i64,
) -> StoreView
    decreases outcomes.len(),
{
    if outcomes.len() == 0 {
        store
    } else {
        with_quote_outcome(
            after_quote_pass(store, outcomes.drop_last(), observed_at),
            outcomes.last().symbol@,
            outcomes.last().outcome,
            observed_at,
        )
    }
}

/// The store after the outcomes of a history pass were applied, first to last.
pub open spec fn after_history_pass(store: StoreView, outcomes: Seq<HistoryOutcome>) -> StoreView
    decreases outcomes.len(),
{
    if outcomes.len() == 0 {
        store
    } else {
        with_history_outcome(
            after_history_pass(store, outcomes.drop_last()),
            outcomes.last().symbol@,
            outcomes.last().outcome,
        )
    }
}

/// How many of a quote pass's outcomes are applied: those that hold a quote
/// for a symbol among `symbols`.
pub open spec fn quotes_taken(symbols: Seq<Seq<char>>, outcomes: Seq<QuoteOutcome>) -> nat
    decreases outcomes.len(),
{
    if outcomes.len() == 0 {
        0
    } else {
        let earlier = quotes_taken(symbols, outcomes.drop_last());
        if outcomes.last().outcome is Ok && symbols.contains(outcomes.last().symbol@) {
            earlier + 1
        } else {
            earlier
        }
    }
}

/// How many of a history pass's outcomes are applied: those that hold a
/// series for a symbol among `symbols`.
pub open spec fn histories_taken(symbols: Seq<Seq<char>>, outcomes: Seq<HistoryOutcome>) -> nat
    decreases outcomes.len(),
{
    if outcomes.len() == 0 {
        0
    } else {
        let earlier = histories_taken(symbols, outcomes.drop_last());
        if outcomes.last().outcome is Ok && symbols.contains(outcomes.last().symbol@) {
            earlier + 1
        } else {
            earlier
        }
    }
}

/// A pass keeps the store consistent and tracks the symbols it tracked before,
/// whatever was fetched.
pub proof fn lemma_passes_keep_consistency(
    store: StoreView,
    quotes: Seq<QuoteOutcome>,
    observed_at: i64,
    histories: Seq<HistoryOutcome>,
)
    requires
        store.consistent(),
    ensures
        after_quote_pass(store, quotes, observed_at).consistent(),
        after_quote_pass(store, quotes, observed_at).symbols() == store.symbols(),
        after_history_pass(store, histories).consistent(),
        after_history_pass(store, histories).symbols() == store.symbols(),
    decreases quotes.len() + histories.len(),
{
    if quotes.len() > 0 {
        let earlier = after_quote_pass(store, quotes.drop_last(), observed_at);
        lemma_passes_keep_consistency(store, quotes.drop_last(), observed_at, histories);
        match quotes.last().outcome {
            Ok(quote) => {
                lemma_updates_keep_consistency(
                    earlier,
                    quotes.last().symbol@,
                    quote.price,
                    quote.change_percent,
                    observed_at,
                    Seq::empty(),
                );
            },
            Err(_) => {},
        }
    } else if histories.len() > 0 {
        let earlier = after_history_pass(store, histories.drop_last());
        lemma_passes_keep_consistency(store, quotes, observed_at, histories.drop_last());
        match histories.last().outcome {
            Ok(series) => {
                lemma_updates_keep_consistency(earlier, histories.last().symbol@, 0, 0, 0, series@);
            },
            Err(_) => {},
        }
    }
}

/// A symbol for which a quote pass fetched nothing keeps its state through the
/// pass, whatever was fetched for the others.
pub proof fn lemma_quote_pass_spares_failed(
    store: StoreView,
    outcomes: Seq<QuoteOutcome>,
    observed_at: i64,
    symbol: Seq<char>,
)
    requires
        store.consistent(),
        store.tracks(symbol),
        forall|i: int|
            0 <= i < outcomes.len() && (#[trigger] outcomes[i]).symbol@ == symbol
                ==> outcomes[i].outcome is Err,
    ensures
        after_quote_pass(store, outcomes, observed_at).tracks(symbol),
        after_quote_pass(store, outcomes, observed_at).state_of(symbol) == store.state_of(symbol),
    decreases outcomes.len(),
{
    if outcomes.len() > 0 {
        let shorter = outcomes.drop_last();
        let earlier = after_quote_pass(store, shorter, observed_at);
        assert forall|i: int|
            0 <= i < shorter.len() && (#[trigger] shorter[i]).symbol@
                == symbol implies shorter[i].outcome is Err by {
            assert(shorter[i] == outcomes[i]);
        }
        lemma_quote_pass_spares_failed(store, shorter, observed_at, symbol);
        lemma_passes_keep_consistency(store, shorter, observed_at, Seq::empty());
        let last = outcomes[outcomes.len() - 1];
        match last.outcome {
            Ok(quote) => {
                lemma_other_symbols_untouched(
                    earlier,
                    last.symbol@,
                    symbol,
                    quote.price,
                    quote.change_percent,
                    observed_at,
                    Seq::empty(),
                );
                lemma_updates_keep_tracking(
                    earlier,
                    last.symbol@,
                    quote.price,
                    quote.change_percent,
                    observed_at,
                    Seq::empty(),
                    symbol,
                );
            },
            Err(_) => {},
        }
    }
}

/// A symbol for which a history pass fetched nothing keeps its state through
/// the pass, whatever was fetched for the others.
pub proof fn lemma_history_pass_spares_failed(
    store: StoreView,
    outcomes: Seq<HistoryOutcome>,
    symbol: Seq<char>,
)
    requires
        store.consistent(),
        store.tracks(symbol),
        forall|i: int|
            0 <= i < outcomes.len() && (#[trigger] outcomes[i]).symbol@ == symbol
                ==> outcomes[i].outcome is Err,
    ensures
        after_history_pass(store, outcomes).tracks(symbol),
        after_history_pass(store, outcomes).state_of(symbol) == store.state_of(symbol),
    decreases outcomes.len(),
{
    if outcomes.len() > 0 {
        let shorter = outcomes.drop_last();
        let earlier = after_history_pass(store, shorter);
        assert forall|i: int|
            0 <= i < shorter.len() && (#[trigger] shorter[i]).symbol@
                == symbol implies shorter[i].outcome is Err by {
            assert(shorter[i] == outcomes[i]);
        }
        lemma_history_pass_spares_failed(store, shorter, symbol);
        lemma_passes_keep_consistency(store, Seq::empty(), 0, shorter);
        let last = outcomes[outcomes.len() - 1];
        match last.outcome {
            Ok(series) => {
                lemma_other_symbols_untouched(earlier, last.symbol@, symbol, 0, 0, 0, series@);
                lemma_updates_keep_tracking(earlier, last.symbol@, 0, 0, 0, series@, symbol);
            },
            Err(_) => {},
        }
    }
}

/// Hands one symbol's quote outcome to the store, and says whether a quote was
/// applied.
pub fn apply_quote_outcome(
    store: &mut SnapshotStore,
    symbol: &str,
    outcome: &Result<Quote, FetchError>,
    observed_at: i64,
) -> (applied: bool)
    requires
        old(store).wf(),
    ensures
        final(store)@ == with_quote_outcome(old(store)@, symbol@, *outcome, observed_at),
        final(store).wf(),
        final(store)@.symbols() == old(store)@.symbols(),
        applied == (outcome is Ok && old(store)@.tracks(symbol@)),
{
    match outcome {
        Ok(quote) => store.apply_quote(symbol, quote.price, quote.change_percent, observed_at),
        Err(_) => false,
    }
}

/// Hands one symbol's history outcome to the store, and says whether a series
/// was applied.
pub fn apply_history_outcome(
    store: &mut SnapshotStore,
    symbol: &str,
    outcome: &Result<Vec<PricePoint>, FetchError>,
) -> (applied: bool)
    requires
        old(store).wf(),
    ensures
        final(store)@ == with_history_outcome(old(store)@, symbol@, *outcome),
        final(store).wf(),
        final(store)@.symbols() == old(store)@.symbols(),
        applied == (outcome is Ok && old(store)@.tracks(symbol@)),
{
    match outcome {
        Ok(series) => {
            let copy = series.clone();
            assert(copy@ =~= series@);
            store.apply_history(symbol, copy)
        },
        Err(_) => false,
    }
}

/// Applies the outcomes of one quote pass, all observed at `observed_at`, and
/// records the pass as completed then. A symbol whose fetch failed keeps its
/// state; the others are not affected by that failure. Returns how many
/// outcomes were applied.
pub fn apply_quote_pass(
    store: &mut SnapshotStore,
    outcomes: &Vec<QuoteOutcome>,
    observed_at: i64,
) -> (taken: usize)
    requires
        old(store).wf(),
    ensures
        final(store)@ == after_quote_pass(old(store)@, outcomes@, observed_at).with_pass_recorded(
            observed_at,
        ),
        final(store).wf(),
        final(store)@.symbols() == old(store)@.symbols(),
        taken == quotes_taken(old(store)@.symbols(), outcomes@),
{
    let mut taken: usize = 0;
    let mut i: usize = 0;
    while i < outcomes.len()
        invariant
            i <= outcomes.len(),
            store.wf(),
            store@ == after_quote_pass(old(store)@, outcomes@.take(i as int), observed_at),
            store@.symbols() == old(store)@.symbols(),
            taken == quotes_taken(old(store)@.symbols(), outcomes@.take(i as int)),
            taken <= i,
        decreases outcomes.len() - i,
    {
        assert(outcomes@.take(i + 1).drop_last() =~= outcomes@.take(i as int));
        proof {
            lemma_tracked_is_listed(store@, outcomes@[i as int].symbol@);
        }
        let outcome = &outcomes[i];
        if apply_quote_outcome(store, outcome.symbol.as_str(), &outcome.outcome, observed_at) {
            taken += 1;
        }
        i += 1;
    }
    assert(outcomes@.take(outcomes.len() as int) =~= outcomes@);
    store.record_pass(observed_at);
    taken
}

/// Applies the outcomes of one history pass. A symbol whose fetch failed keeps
/// its state; the others are not affected by that failure. Returns how many
/// outcomes were applied.
pub fn apply_history_pass(store: &mut SnapshotStore, outcomes: &Vec<HistoryOutcome>) -> (taken:
    usize)
    requires
        old(store).wf(),
    ensures
        final(store)@ == after_history_pass(old(store)@, outcomes@),
        final(store).wf(),
        final(store)@.symbols() == old(store)@.symbols(),
        taken == histories_taken(old(store)@.symbols(), outcomes@),
{
    let mut taken: usize = 0;
    let mut i: usize = 0;
    while i < outcomes.len()
        invariant
            i <= outcomes.len(),
            store.wf(),
            store@ == after_history_pass(old(store)@, outcomes@.take(i as int)),
            store@.symbols() == old(store)@.symbols(),
            taken == histories_taken(old(store)@.symbols(), outcomes@.take(i as int)),
            taken <= i,
        decreases outcomes.len() - i,
    {
        assert(outcomes@.take(i + 1).drop_last() =~= outcomes@.take(i as int));
        proof {
            lemma_tracked_is_listed(store@, outcomes@[i as int].symbol@);
        }
        let outcome = &outcomes[i];
        if apply_history_outcome(store, outcome.symbol.as_str(), &outcome.outcome) {
            taken += 1;
        }
        i += 1;
    }
    assert(outcomes@.take(outcomes.len() as int) =~= outcomes@);
    taken
}

} // verus!
