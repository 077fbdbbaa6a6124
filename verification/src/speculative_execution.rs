//! Racing a request against delayed duplicates of itself.
use crate::errors::{RequestAttemptError, RequestError};
use std::time::Duration;
use vstd::prelude::*;

verus! {

/// Context is passed as an argument to `SpeculativeExecutionPolicy` methods
#[non_exhaustive]
#[derive(Debug)]
pub struct Context {}

impl Context {
    /// A context that holds nothing.
    pub fn new() -> Self {
        Context {  }
    }
}

/// The policy that decides if the driver will send speculative queries to the
/// next targets when the current target takes too long to respond.
///
/// The two spec functions say which answers a policy may give. A policy
/// that looks at measurements may give any answer, and that is what a policy
/// allows unless it says otherwise; a policy with one answer allows that
/// answer alone.
pub trait SpeculativeExecutionPolicy: Send + Sync {
    /// Whether `count` is an answer that `max_retry_count` may give.
    open spec fn allows_retry_count(&self, context: &Context, count: usize) -> bool {
        true
    }

    /// Whether `interval` is an answer that `retry_interval` may give.
    open spec fn allows_retry_interval(&self, context: &Context, interval: Duration) -> bool {
        true
    }

    /// The maximum number of speculative executions that will be triggered
    /// for a given request (does not include the initial request)
    fn max_retry_count(&self, context: &Context) -> (count: usize)
        ensures
            self.allows_retry_count(context, count),
    ;

    /// The delay between each speculative execution
    fn retry_interval(&self, context: &Context) -> (interval: Duration)
        ensures
            self.allows_retry_interval(context, interval),
    ;
}

/// A SpeculativeExecutionPolicy that schedules a given number of speculative
/// executions, separated by a fixed delay.
#[derive(Debug, Clone, Copy)]
pub struct SimpleSpeculativeExecutionPolicy {
    /// The maximum number of speculative executions that will be triggered
    /// for a given request (does not include the initial request)
    pub max_retry_count: usize,
    /// The delay between each speculative execution
    pub retry_interval: Duration,
}

impl SpeculativeExecutionPolicy for SimpleSpeculativeExecutionPolicy {
    open spec fn allows_retry_count(&self, context: &Context, count: usize) -> bool {
        count == self.max_retry_count
    }

    open spec fn allows_retry_interval(&self, context: &Context, interval: Duration) -> bool {
        interval == self.retry_interval
    }

    fn max_retry_count(&self, _context: &Context) -> (count: usize) {
        self.max_retry_count
    }

    fn retry_interval(&self, _context: &Context) -> (interval: Duration) {
        self.retry_interval
    }
}

/// The interval, in milliseconds, that a policy driven by measured latencies
/// uses when the measurement cannot be had.
pub const FALLBACK_RETRY_INTERVAL_MS: u64 = 100;

/// The delay in milliseconds between speculative executions, given the
/// latency percentile that was asked of the metrics: the percentile itself,
/// or the fallback where the metrics could not give one.
pub fn percentile_retry_interval_ms<E>(latency_percentile_ms: Result<u64, E>) -> (ms: u64)
    ensures
        ms == match latency_percentile_ms {
            Ok(latency) => latency,
            Err(_) => FALLBACK_RETRY_INTERVAL_MS,
        },
{
    match latency_percentile_ms {
        Ok(latency) => latency,
        Err(_) => FALLBACK_RETRY_INTERVAL_MS,
    }
}

/// Whether the failure of an attempt is local to the node or to the
/// connection that was tried: the connection broke, or has no stream id
/// left, or the database reported an error that is safe to retry elsewhere.
pub open spec fn node_local(e: RequestAttemptError) -> bool {
    ||| e is BrokenConnectionError
    ||| e is UnableToAllocStreamId
    ||| (e matches RequestAttemptError::DbError(db_error, _) && db_error.retry_safe())
}

/// Whether the outcome of an attempt says so little about the request that
/// the race goes on without it: never a success, and of the failures those
/// that another node is not expected to repeat.
pub open spec fn ignorable<ResT>(result: Result<ResT, RequestError>) -> bool {
    match result {
        Ok(_) => false,
        Err(e) => e is ConnectionPoolError || (e matches RequestError::LastAttemptError(attempt)
            && node_local(attempt)),
    }
}

/// Checks if a result created in a speculative execution branch can be ignored.
///
/// We should ignore errors such that their presence when executing the request
/// on one node, does not imply that the same error will appear during retry on some other node.
pub fn can_be_ignored<ResT>(result: &Result<ResT, RequestError>) -> (ignored: bool)
    ensures
        ignored == ignorable(*result),
{
    match result {
        Ok(_) => false,
        // No arm of the two matches below is a wildcard: a variant that is
        // added later has to be classified here before the crate builds.
        Err(e) => match e {
            // This error should not appear here. Anyway, if it possibly could
            // in the future, it should not be ignored.
            RequestError::EmptyPlan => false,
            // Request execution timed out.
            RequestError::RequestTimeout(_) => false,
            // Can try on another node.
            RequestError::ConnectionPoolError(_) => true,
            RequestError::LastAttemptError(e) => {
                match e {
                    // Errors that will almost certainly appear for other nodes as well
                    RequestAttemptError::SerializationError(_)
                    | RequestAttemptError::CqlRequestSerialization(_)
                    | RequestAttemptError::BodyExtensionsParseError(_)
                    | RequestAttemptError::CqlResultParseError(_)
                    | RequestAttemptError::CqlErrorParseError(_)
                    | RequestAttemptError::UnexpectedResponse(_)
                    | RequestAttemptError::RepreparedIdChanged { .. }
                    | RequestAttemptError::RepreparedIdMissingInBatch
                    | RequestAttemptError::NonfinishedPagingState => false,
                    // Errors that can be ignored
                    RequestAttemptError::BrokenConnectionError(_)
                    | RequestAttemptError::UnableToAllocStreamId => true,
                    // Handle DbErrors
                    RequestAttemptError::DbError(db_error, _) => db_error.can_speculative_retry(),
                }
            },
        },
    }
}

/// What can happen to a race while its caller waits.
#[derive(Debug)]
pub enum Event<ResT> {
    /// The timer that was armed with the retry interval has fired.
    TimerFired,
    /// One of the attempts in flight has finished: with `None` where it has
    /// nothing to report, else with its success or its failure.
    AttemptFinished(Option<Result<ResT, RequestError>>),
}

/// The state of a race, as values: the number of speculative attempts that
/// may still be launched, the number of attempts in flight, the interval
/// between two launches, and the failure that was ignored last.
pub struct RaceView {
    pub retries_remaining: nat,
    pub in_flight: nat,
    pub retry_interval: Duration,
    pub last_error: Option<RequestError>,
}

/// What a race answers to an event, as values.
pub enum StepView<ResT> {
    /// Nothing to do but wait for the next event.
    Wait(RaceView),
    /// Launch one more attempt, arm the timer anew, and wait.
    Launch(RaceView),
    /// The race is over, and this is what the caller sees.
    Finish(Result<ResT, RequestError>),
}

impl RaceView {
    /// The race at its start: the first attempt is in flight, and no
    /// speculative attempt has been launched.
    pub open spec fn initial(max_retry_count: nat, retry_interval: Duration) -> RaceView {
        RaceView {
            retries_remaining: max_retry_count,
            in_flight: 1,
            retry_interval,
            last_error: None,
        }
    }

    /// A race that goes on has something to wait for: an attempt in flight,
    /// or a launch to come.
    pub open spec fn wf(self) -> bool {
        self.in_flight + self.retries_remaining >= 1
    }

    /// The answer to the timer: while retries remain, one of them is spent
    /// on a launch; afterwards the timer changes nothing.
    pub open spec fn on_timer<ResT>(self) -> StepView<ResT> {
        if self.retries_remaining > 0 {
            StepView::Launch(
                RaceView {
                    retries_remaining: (self.retries_remaining - 1) as nat,
                    in_flight: self.in_flight + 1,
                    ..self
                },
            )
        } else {
            StepView::Wait(self)
        }
    }

    /// What the caller sees when nothing is left to wait for: the failure
    /// that was ignored last, or that there was no plan if none ever was.
    pub open spec fn exhausted<ResT>(last_error: Option<RequestError>) -> Result<
        ResT,
        RequestError,
    > {
        match last_error {
            Some(e) => Err(e),
            None => Err(RequestError::EmptyPlan),
        }
    }

    /// The answer to a finished attempt. A success, or a failure that is not
    /// ignorable, ends the race at once. Else the attempt leaves the race,
    /// its failure, if it reports one, is remembered in place of the earlier
    /// one, and the race ends only if no attempt is in flight and none can
    /// be launched any more.
    pub open spec fn on_attempt_finished<ResT>(
        self,
        outcome: Option<Result<ResT, RequestError>>,
    ) -> StepView<ResT> {
        if outcome is Some && !ignorable(outcome->0) {
            StepView::Finish(outcome->0)
        } else {
            let last_error = match outcome {
                Some(Err(e)) => Some(e),
                _ => self.last_error,
            };
            let in_flight = if self.in_flight > 0 {
                (self.in_flight - 1) as nat
            } else {
                0
            };
            if in_flight == 0 && self.retries_remaining == 0 {
                StepView::Finish(Self::exhausted(last_error))
            } else {
                StepView::Wait(RaceView { in_flight, last_error, ..self })
            }
        }
    }

    /// The answer to an event.
    pub open spec fn step<ResT>(self, event: Event<ResT>) -> StepView<ResT> {
        match event {
            Event::TimerFired => self.on_timer(),
            Event::AttemptFinished(outcome) => self.on_attempt_finished(outcome),
        }
    }
}

/// A race between the first attempt of a request and the speculative
/// attempts that are launched while it is slow to answer.
///
/// The race makes the decisions and leaves the waiting to its caller: the
/// caller starts the first attempt and a timer of `retry_interval`, hands
/// each event to `step`, and does what the answer says.
#[derive(Debug)]
pub struct Race {
    retries_remaining: usize,
    // One more than `usize` can count when every retry is in flight beside
    // the first attempt.
    in_flight: u128,
    retry_interval: Duration,
    last_error: Option<RequestError>,
}

/// What a race answers to an event.
#[derive(Debug)]
pub enum Step<ResT> {
    /// Nothing to do but wait for the next event.
    Wait(Race),
    /// Launch one more attempt, arm the timer anew, and wait.
    Launch(Race),
    /// The race is over, and this is what the caller sees.
    Finish(Result<ResT, RequestError>),
}

impl View for Race {
    type V = RaceView;

    closed spec fn view(&self) -> RaceView {
        RaceView {
            retries_remaining: self.retries_remaining as nat,
            in_flight: self.in_flight as nat,
            retry_interval: self.retry_interval,
            last_error: self.last_error,
        }
    }
}

impl<ResT> View for Step<ResT> {
    type V = StepView<ResT>;

    open spec fn view(&self) -> StepView<ResT> {
        match *self {
            Step::Wait(race) => StepView::Wait(race@),
            Step::Launch(race) => StepView::Launch(race@),
            Step::Finish(result) => StepView::Finish(result),
        }
    }
}

impl Race {
    #[verifier::type_invariant]
    spec fn bounded(self) -> bool {
        1 <= self.in_flight + self.retries_remaining <= usize::MAX + 1
    }

    /// The race of a request that may be retried `max_retry_count` times,
    /// `retry_interval` apart. The caller has started the first attempt.
    pub fn new(max_retry_count: usize, retry_interval: Duration) -> (race: Self)
        ensures
            race@ == RaceView::initial(max_retry_count as nat, retry_interval),
    {
        Race { retries_remaining: max_retry_count, in_flight: 1, retry_interval, last_error: None }
    }

    /// The race of a request under `policy`: the policy is asked once for
    /// the number of retries and once for the interval between them.
    pub fn start<P: SpeculativeExecutionPolicy + ?Sized>(policy: &P, context: &Context) -> (race:
        Self)
        ensures
            exists|count: usize, interval: Duration|
                policy.allows_retry_count(context, count) && policy.allows_retry_interval(
                    context,
                    interval,
                ) && race@ == RaceView::initial(count as nat, interval),
    {
        let retries_remaining = policy.max_retry_count(context);
        let retry_interval = policy.retry_interval(context);
        Race::new(retries_remaining, retry_interval)
    }

    /// The number of speculative attempts that may still be launched.
    pub fn retries_remaining(&self) -> (count: usize)
        ensures
            count == self@.retries_remaining,
            self@.wf(),
    {
        proof {
            use_type_invariant(self);
        }
        self.retries_remaining
    }

    /// The time to wait between two launches.
    pub fn retry_interval(&self) -> (interval: Duration)
        ensures
            interval == self@.retry_interval,
    {
        self.retry_interval
    }

    /// Answers an event: what the caller has to do next, and the race as it
    /// stands then.
    pub fn step<ResT>(self, event: Event<ResT>) -> (next: Step<ResT>)
        ensures
            next@ == self@.step(event),
            self@.wf(),
            next matches Step::Wait(race) ==> race@.wf(),
            next matches Step::Launch(race) ==> race@.wf(),
    {
        proof {
            use_type_invariant(&self);
        }
        match event {
            Event::TimerFired => {
                if self.retries_remaining > 0 {
                    Step::Launch(
                        Race {
                            retries_remaining: self.retries_remaining - 1,
                            in_flight: self.in_flight + 1,
                            retry_interval: self.retry_interval,
                            last_error: self.last_error,
                        },
                    )
                } else {
                    Step::Wait(self)
                }
            },
            Event::AttemptFinished(outcome) => {
                let last_error = match outcome {
                    None => self.last_error,
                    Some(result) => {
                        if !can_be_ignored(&result) {
                            return Step::Finish(result);
                        }
                        match result {
                            Err(e) => Some(e),
                            Ok(_) => vstd::pervasive::unreached(),
                        }
                    },
                };
                let in_flight: u128 = if self.in_flight > 0 {
                    self.in_flight - 1
                } else {
                    0
                };
                if in_flight == 0 && self.retries_remaining == 0 {
                    Step::Finish(
                        match last_error {
                            Some(e) => Err(e),
                            None => Err(RequestError::EmptyPlan),
                        },
                    )
                } else {
                    Step::Wait(
                        Race {
                            retries_remaining: self.retries_remaining,
                            in_flight,
                            retry_interval: self.retry_interval,
                            last_error,
                        },
                    )
                }
            },
        }
    }
}

impl RaceView {
    /// The result with which the race ends while `events` are fed to it in
    /// order, or `None` if it is still going on after the last of them.
    /// Events that follow the end of the race are not looked at.
    pub open spec fn outcome<ResT>(self, events: Seq<Event<ResT>>) -> Option<
        Result<ResT, RequestError>,
    >
        decreases events.len(),
    {
        if events.len() == 0 {
            None
        } else {
            match self.step(events.first()) {
                StepView::Finish(result) => Some(result),
                StepView::Wait(next) => next.outcome(events.drop_first()),
                StepView::Launch(next) => next.outcome(events.drop_first()),
            }
        }
    }

    /// The number of speculative attempts that are launched while `events`
    /// are fed to the race in order, up to its end.
    pub open spec fn launches<ResT>(self, events: Seq<Event<ResT>>) -> nat
        decreases events.len(),
    {
        if events.len() == 0 {
            0
        } else {
            match self.step(events.first()) {
                StepView::Finish(_) => 0,
                StepView::Wait(next) => next.launches(events.drop_first()),
                StepView::Launch(next) => 1 + next.launches(events.drop_first()),
            }
        }
    }

    /// What is left to wait for, counted so that every event that changes
    /// the race makes it smaller: a launch to come counts twice, an attempt
    /// in flight once.
    pub open spec fn work_left(self) -> nat {
        2 * self.retries_remaining + self.in_flight
    }
}

/// Every failure that an attempt reports in `events` is ignorable, and every
/// attempt that finishes reports one.
pub open spec fn only_ignorable_failures<ResT>(events: Seq<Event<ResT>>) -> bool {
    forall|i: int|
        0 <= i < events.len() ==> (#[trigger] events[i] matches Event::AttemptFinished(outcome)
            ==> outcome matches Some(Err(e)) && ignorable::<ResT>(Err(e)))
}

/// A success ends the race at once, whatever its state, and is what the
/// caller sees.
pub proof fn lemma_success_ends_race<ResT>(race: RaceView, value: ResT)
    ensures
        race.step(Event::AttemptFinished(Some(Ok(value)))) == StepView::Finish(
            Ok::<ResT, RequestError>(value),
        ),
{
}

/// Where the first attempt succeeds before anything else happens, the
/// race returns that success and launches no speculative attempt, whatever
/// the policy allows and whatever would have happened later.
pub proof fn lemma_immediate_success<ResT>(
    max_retry_count: nat,
    retry_interval: Duration,
    value: ResT,
    later: Seq<Event<ResT>>,
)
    ensures
        RaceView::initial(max_retry_count, retry_interval).outcome(
            seq![Event::AttemptFinished(Some(Ok(value)))] + later,
        ) == Some(Ok::<ResT, RequestError>(value)),
        RaceView::initial(max_retry_count, retry_interval).launches(
            seq![Event::AttemptFinished(Some(Ok(value)))] + later,
        ) == 0,
{
    let events = seq![Event::AttemptFinished(Some(Ok(value)))] + later;
    assert(events.first() == Event::AttemptFinished(Some(Ok::<ResT, RequestError>(value))));
}

/// While no attempt finishes, the timer alone drives the race: of `ticks`
/// ticks the first `retries_remaining` launch one attempt each, the later
/// ones change nothing, and the race goes on.
pub proof fn lemma_timer_launches_each_retry_once<ResT>(race: RaceView, ticks: nat)
    ensures
        race.launches(Seq::new(ticks, |i: int| Event::<ResT>::TimerFired)) == if ticks
            <= race.retries_remaining {
            ticks
        } else {
            race.retries_remaining
        },
        race.outcome(Seq::new(ticks, |i: int| Event::<ResT>::TimerFired)) is None,
    decreases ticks,
{
    let events = Seq::new(ticks, |i: int| Event::<ResT>::TimerFired);
    if ticks > 0 {
        let rest = Seq::new((ticks - 1) as nat, |i: int| Event::<ResT>::TimerFired);
        assert(events.drop_first() =~= rest);
        assert(events.first() == Event::<ResT>::TimerFired);
        match race.step(events.first()) {
            StepView::Finish(_) => {},
            StepView::Wait(next) => {
                lemma_timer_launches_each_retry_once::<ResT>(next, (ticks - 1) as nat);
            },
            StepView::Launch(next) => {
                lemma_timer_launches_each_retry_once::<ResT>(next, (ticks - 1) as nat);
            },
        }
    }
}

/// A launch spends one retry, puts one more attempt in flight, and leaves
/// the interval as it was: the timer is armed anew with the same interval.
pub proof fn lemma_launch_keeps_interval<ResT>(race: RaceView, event: Event<ResT>)
    ensures
        race.step(event) matches StepView::Launch(next) ==> {
            &&& event is TimerFired
            &&& next.retries_remaining + 1 == race.retries_remaining
            &&& next.in_flight == race.in_flight + 1
            &&& next.retry_interval == race.retry_interval
            &&& next.last_error == race.last_error
        },
{
}

/// A result that is not ignorable ends the race at once, whatever its state
/// and however many attempts are still in flight, and is what the caller
/// sees.
pub proof fn lemma_decisive_result_ends_race<ResT>(
    race: RaceView,
    result: Result<ResT, RequestError>,
)
    requires
        !ignorable(result),
    ensures
        race.step(Event::AttemptFinished(Some(result))) == StepView::Finish(result),
{
}

/// The first result that is not ignorable is what the race returns: the
/// events behind it play no part.
pub proof fn lemma_first_decisive_result_wins<ResT>(
    race: RaceView,
    events: Seq<Event<ResT>>,
    at: int,
    result: Result<ResT, RequestError>,
)
    requires
        0 <= at < events.len(),
        events[at] == Event::AttemptFinished(Some(result)),
        !ignorable(result),
        race.outcome(events.take(at)) is None,
    ensures
        race.outcome(events) == Some(result),
    decreases at,
{
    if at > 0 {
        let before = events.take(at);
        assert(before.first() == events.first());
        assert(before.drop_first() =~= events.drop_first().take(at - 1));
        match race.step(events.first()) {
            StepView::Finish(_) => {},
            StepView::Wait(next) => {
                lemma_first_decisive_result_wins(next, events.drop_first(), at - 1, result);
            },
            StepView::Launch(next) => {
                lemma_first_decisive_result_wins(next, events.drop_first(), at - 1, result);
            },
        }
    } else {
        assert(events.first() == events[at]);
    }
}

/// An ignorable failure ends the race exactly where nothing is left to wait
/// for: no other attempt is in flight and no retry remains. Then it is this
/// failure that the caller sees, not an earlier one. Else the attempt
/// leaves the race, and its failure is the one that is remembered.
pub proof fn lemma_ignorable_failure_is_remembered<ResT>(race: RaceView, e: RequestError)
    requires
        ignorable::<ResT>(Err(e)),
    ensures
        race.step(Event::<ResT>::AttemptFinished(Some(Err(e)))) == if race.in_flight <= 1
            && race.retries_remaining == 0 {
            StepView::Finish(Err::<ResT, _>(e))
        } else {
            StepView::Wait(
                RaceView {
                    in_flight: if race.in_flight > 0 {
                        (race.in_flight - 1) as nat
                    } else {
                        0
                    },
                    last_error: Some(e),
                    ..race
                },
            )
        },
{
}

/// An attempt that has nothing to report leaves the race without a trace:
/// the race ends only if nothing is left to wait for, and then with the
/// failure that was ignored last, or with the word that there was no plan
/// if no failure was ever ignored.
pub proof fn lemma_silent_attempt_leaves<ResT>(race: RaceView)
    ensures
        race.step(Event::<ResT>::AttemptFinished(None)) == if race.in_flight <= 1
            && race.retries_remaining == 0 {
            StepView::Finish(RaceView::exhausted::<ResT>(race.last_error))
        } else {
            StepView::Wait(
                RaceView {
                    in_flight: if race.in_flight > 0 {
                        (race.in_flight - 1) as nat
                    } else {
                        0
                    },
                    ..race
                },
            )
        },
{
}

/// Where every attempt fails with an ignorable error, the race returns the
/// error of the attempt that finished last.
pub proof fn lemma_last_ignorable_failure_is_returned<ResT>(
    race: RaceView,
    events: Seq<Event<ResT>>,
    result: Result<ResT, RequestError>,
)
    requires
        only_ignorable_failures(events),
        events.len() > 0,
        race.outcome(events.drop_last()) is None,
        race.outcome(events) == Some(result),
    ensures
        events.last() matches Event::AttemptFinished(Some(Err(e))) && result == Err::<ResT, _>(e),
    decreases events.len(),
{
    let first = events.first();
    assert(first == events[0]);
    if events.len() == 1 {
        assert(events.last() == first);
        match race.step(first) {
            StepView::Finish(_) => {},
            StepView::Wait(next) => {
                assert(next.outcome(events.drop_first()) is None);
            },
            StepView::Launch(next) => {
                assert(next.outcome(events.drop_first()) is None);
            },
        }
    } else {
        let rest = events.drop_first();
        assert(events.drop_last().first() == first);
        assert(events.drop_last().drop_first() =~= rest.drop_last());
        assert(rest.last() == events.last());
        assert(only_ignorable_failures(rest)) by {
            assert forall|i: int| 0 <= i < rest.len() implies (#[trigger] rest[i]
                matches Event::AttemptFinished(outcome) ==> outcome matches Some(Err(e))
                && ignorable::<ResT>(Err(e))) by {
                assert(rest[i] == events[i + 1]);
            }
        }
        match race.step(first) {
            StepView::Finish(_) => {},
            StepView::Wait(next) => {
                lemma_last_ignorable_failure_is_returned(next, rest, result);
            },
            StepView::Launch(next) => {
                lemma_last_ignorable_failure_is_returned(next, rest, result);
            },
        }
    }
}

/// The race cannot go on for ever: a race that still waits for something
/// keeps doing so after an event that does not end it, and every event that
/// changes it leaves less to wait for.
pub proof fn lemma_step_makes_progress<ResT>(race: RaceView, event: Event<ResT>)
    requires
        race.wf(),
    ensures
        match race.step(event) {
            StepView::Finish(_) => true,
            StepView::Launch(next) => next.wf() && next.work_left() < race.work_left(),
            StepView::Wait(next) => next.wf() && (next == race || next.work_left()
                < race.work_left() || (race.in_flight == 0 && next.work_left()
                == race.work_left())),
        },
{
}

/// The caller is never left waiting for nothing: once no retry remains,
/// the race is over at the latest when as many attempts have finished as
/// were in flight.
pub proof fn lemma_race_ends_with_last_attempt<ResT>(race: RaceView, events: Seq<Event<ResT>>)
    requires
        race.wf(),
        race.retries_remaining == 0,
        events.len() >= race.in_flight,
        forall|i: int| 0 <= i < events.len() ==> #[trigger] events[i] is AttemptFinished,
    ensures
        race.outcome(events) is Some,
    decreases events.len(),
{
    let first = events.first();
    assert(first == events[0]);
    let rest = events.drop_first();
    assert forall|i: int| 0 <= i < rest.len() implies #[trigger] rest[i] is AttemptFinished by {
        assert(rest[i] == events[i + 1]);
    }
    match race.step(first) {
        StepView::Finish(_) => {},
        StepView::Wait(next) => {
            lemma_race_ends_with_last_attempt(next, rest);
        },
        StepView::Launch(next) => {},
    }
}

} // verus!
