//! How a Redis broker connects again.

use vstd::prelude::*;

use crate::broker::redis::queue::RedisQueue;
use crate::error::BrokerError;
use crate::string_map::StringMap;
use crate::text::same_text;

verus! {

/// What came of a ping.
pub enum PingOutcome {
    /// The server replied.
    Replied(String),
    /// The connection failed.
    Failed(::redis::RedisError),
    /// No reply came in time.
    TimedOut,
}

/// What happened outside.
pub enum ReconnectEvent {
    /// Connecting begins.
    Begin,
    /// So many permits were taken away.
    Forgotten(usize),
    /// So many nanoseconds passed since connecting began.
    Elapsed(u128),
    /// The server was pinged.
    Pinged(PingOutcome),
    /// The queues were declared.
    Declared(Result<StringMap<RedisQueue>, BrokerError>),
}

/// What is to be done outside.
#[derive(Clone, Copy, Debug, PartialEq, Eq)]
pub enum ReconnectAction {
    /// Take all permits away, so that no more deliveries are fetched.
    ForgetPermits,
    /// Find out how much time has passed.
    ReadClock,
    /// Ping the server, and wait for some seconds at most.
    Ping { timeout: u32 },
    /// Declare the queues, where a command may take some seconds.
    DeclareQueues { timeout: u32 },
}

/// What is being waited for.
#[derive(Clone, Copy, Debug, PartialEq, Eq)]
pub enum ReconnectPhase {
    Ready,
    Forgetting,
    Checking,
    Pinging,
    Declaring,
}

/// An attempt to connect again.
#[derive(Debug)]
pub struct ReconnectTask {
    /// How many seconds to try.
    pub timeout: u32,
    /// The permits that were taken away.
    pub permits: usize,
    /// What went wrong last.
    pub error: BrokerError,
    pub phase: ReconnectPhase,
}

/// What comes after an event.
pub enum ReconnectStep {
    /// Something is to be done.
    Go(ReconnectTask, ReconnectAction),
    /// The broker is connected: it has new queues, and the permits are to be given back.
    Succeeded { queues: StringMap<RedisQueue>, permits: usize },
    /// The time is over.
    Failed(BrokerError),
}

/// Whether an event can come.
pub open spec fn expects(task: ReconnectTask, event: ReconnectEvent) -> bool {
    match task.phase {
        ReconnectPhase::Ready => event is Begin,
        ReconnectPhase::Forgetting => event is Forgotten,
        ReconnectPhase::Checking => event is Elapsed,
        ReconnectPhase::Pinging => event is Pinged,
        ReconnectPhase::Declaring => event is Declared,
    }
}

/// Whether there is time left.
pub open spec fn in_time(timeout: u32, elapsed: u128) -> bool {
    elapsed < timeout * 1_000_000_000
}

/// The task after an attempt that failed: the clock decides whether there is another one.
pub open spec fn try_again(task: ReconnectTask, error: BrokerError) -> ReconnectStep {
    ReconnectStep::Go(
        ReconnectTask { error, phase: ReconnectPhase::Checking, ..task },
        ReconnectAction::ReadClock,
    )
}

/// What comes after an event. Attempts follow each other until one succeeds or the time is
/// over: the server has to reply to a ping as it should, and the queues have to be declared.
pub open spec fn next(task: ReconnectTask, event: ReconnectEvent) -> ReconnectStep {
    match event {
        ReconnectEvent::Begin => ReconnectStep::Go(
            ReconnectTask { phase: ReconnectPhase::Forgetting, ..task },
            ReconnectAction::ForgetPermits,
        ),
        ReconnectEvent::Forgotten(permits) => ReconnectStep::Go(
            ReconnectTask { permits, phase: ReconnectPhase::Checking, ..task },
            ReconnectAction::ReadClock,
        ),
        ReconnectEvent::Elapsed(elapsed) => if in_time(task.timeout, elapsed) {
            ReconnectStep::Go(
                ReconnectTask { phase: ReconnectPhase::Pinging, ..task },
                ReconnectAction::Ping { timeout: task.timeout },
            )
        } else {
            ReconnectStep::Failed(task.error)
        },
        ReconnectEvent::Pinged(PingOutcome::Replied(reply)) => if reply@ == "PONG"@ {
            ReconnectStep::Go(
                ReconnectTask { phase: ReconnectPhase::Declaring, ..task },
                ReconnectAction::DeclareQueues { timeout: task.timeout },
            )
        } else {
            try_again(task, BrokerError::NotConnected)
        },
        ReconnectEvent::Pinged(PingOutcome::Failed(e)) => {
            try_again(task, BrokerError::RedisError(e))
        },
        ReconnectEvent::Pinged(PingOutcome::TimedOut) => try_again(task, BrokerError::NotConnected),
        ReconnectEvent::Declared(Ok(queues)) => ReconnectStep::Succeeded {
            queues,
            permits: task.permits,
        },
        ReconnectEvent::Declared(Err(e)) => try_again(task, e),
    }
}

/// Whether the permits were taken away.
pub open spec fn fetching_stopped(phase: ReconnectPhase) -> bool {
    phase is Checking || phase is Pinging || phase is Declaring
}

/// Once the permits were taken away they are kept through all attempts, are not taken away
/// again, and all come back with a success. A failure gives none back.
pub proof fn permits_come_back_on_success(task: ReconnectTask, event: ReconnectEvent)
    requires
        expects(task, event),
        fetching_stopped(task.phase),
    ensures
        match next(task, event) {
            ReconnectStep::Go(after, action) => after.permits == task.permits && fetching_stopped(
                after.phase,
            ) && !(action is ForgetPermits),
            ReconnectStep::Succeeded { permits, .. } => permits == task.permits,
            ReconnectStep::Failed(_) => true,
        },
{
}

/// What has come of an attempt after some events, the first of which began it.
pub open spec fn run(task: ReconnectTask, events: Seq<ReconnectEvent>) -> ReconnectStep
    decreases events.len(),
{
    if events.len() <= 1 {
        next(task, events[0])
    } else {
        match run(task, events.drop_last()) {
            ReconnectStep::Go(after, _) => next(after, events.last()),
            ended => ended,
        }
    }
}

/// Whether each of some events can come when it does.
pub open spec fn can_come(task: ReconnectTask, events: Seq<ReconnectEvent>) -> bool
    decreases events.len(),
{
    if events.len() <= 1 {
        events.len() == 1 && expects(task, events[0])
    } else {
        &&& can_come(task, events.drop_last())
        &&& run(task, events.drop_last()) matches ReconnectStep::Go(after, _)
        &&& expects(after, events.last())
    }
}

/// An attempt takes the permits away once, and a success gives exactly these permits back,
/// whatever happened in between.
pub proof fn success_gives_back_what_was_taken(
    task: ReconnectTask,
    events: Seq<ReconnectEvent>,
    permits: usize,
)
    requires
        task.phase is Ready,
        can_come(task, events),
        events.len() >= 2,
        events[1] == ReconnectEvent::Forgotten(permits),
    ensures
        match run(task, events) {
            ReconnectStep::Go(after, _) => after.permits == permits && fetching_stopped(
                after.phase,
            ),
            ReconnectStep::Succeeded { permits: given, .. } => given == permits,
            ReconnectStep::Failed(_) => true,
        },
    decreases events.len(),
{
    let earlier = events.drop_last();
    if events.len() == 2 {
        assert(earlier.drop_last().len() == 0);
        assert(run(task, earlier) == next(task, events[0]));
    } else {
        success_gives_back_what_was_taken(task, earlier, permits);
        if let ReconnectStep::Go(after, _) = run(task, earlier) {
            permits_come_back_on_success(after, events.last());
        }
    }
}

/// A failed attempt is followed by another one as long as there is time: only the clock ends
/// the attempts, with the error of the last one.
pub proof fn only_time_ends_the_attempts(task: ReconnectTask, event: ReconnectEvent)
    requires
        expects(task, event),
    ensures
        next(task, event) matches ReconnectStep::Failed(error) ==> {
            &&& error == task.error
            &&& event matches ReconnectEvent::Elapsed(elapsed)
            &&& !in_time(task.timeout, elapsed)
        },
{
}

impl ReconnectTask {
    /// An attempt to connect again within some seconds.
    pub fn new(connection_timeout: u32) -> (r: Self)
        ensures
            r == (ReconnectTask {
                timeout: connection_timeout,
                permits: 0,
                error: BrokerError::NotConnected,
                phase: ReconnectPhase::Ready,
            }),
    {
        ReconnectTask {
            timeout: connection_timeout,
            permits: 0,
            error: BrokerError::NotConnected,
            phase: ReconnectPhase::Ready,
        }
    }

    /// The task after an attempt that failed.
    fn try_again(self, error: BrokerError) -> (r: ReconnectStep)
        ensures
            r == try_again(self, error),
    {
        ReconnectStep::Go(
            ReconnectTask { error, phase: ReconnectPhase::Checking, ..self },
            ReconnectAction::ReadClock,
        )
    }

    /// What comes after an event.
    pub fn step(self, event: ReconnectEvent) -> (r: ReconnectStep)
        requires
            expects(self, event),
        ensures
            r == next(self, event),
    {
        match event {
            ReconnectEvent::Begin => ReconnectStep::Go(
                ReconnectTask { phase: ReconnectPhase::Forgetting, ..self },
                ReconnectAction::ForgetPermits,
            ),
            ReconnectEvent::Forgotten(permits) => ReconnectStep::Go(
                ReconnectTask { permits, phase: ReconnectPhase::Checking, ..self },
                ReconnectAction::ReadClock,
            ),
            ReconnectEvent::Elapsed(elapsed) => {
                if elapsed < self.timeout as u128 * 1_000_000_000 {
                    let timeout = self.timeout;
                    ReconnectStep::Go(
                        ReconnectTask { phase: ReconnectPhase::Pinging, ..self },
                        ReconnectAction::Ping { timeout },
                    )
                } else {
                    ReconnectStep::Failed(self.error)
                }
            },
            ReconnectEvent::Pinged(PingOutcome::Replied(reply)) => {
                if same_text(reply.as_str(), "PONG") {
                    let timeout = self.timeout;
                    ReconnectStep::Go(
                        ReconnectTask { phase: ReconnectPhase::Declaring, ..self },
                        ReconnectAction::DeclareQueues { timeout },
                    )
                } else {
                    self.try_again(BrokerError::NotConnected)
                }
            },
            ReconnectEvent::Pinged(PingOutcome::Failed(e)) => {
                self.try_again(BrokerError::RedisError(e))
            },
            ReconnectEvent::Pinged(PingOutcome::TimedOut) => {
                self.try_again(BrokerError::NotConnected)
            },
            ReconnectEvent::Declared(Ok(queues)) => ReconnectStep::Succeeded {
                queues,
                permits: self.permits,
            },
            ReconnectEvent::Declared(Err(e)) => self.try_again(e),
        }
    }
}

/// Every request of an attempt is bounded by the time that the attempt was started with: in each
/// run of a task, each ping and each declaration of the queues carries the timeout of the task,
/// and the task keeps that timeout.
pub proof fn requests_carry_the_timeout(task: ReconnectTask, events: Seq<ReconnectEvent>)
    requires
        can_come(task, events),
    ensures
        run(task, events) matches ReconnectStep::Go(after, action) ==> {
            &&& after.timeout == task.timeout
            &&& action matches ReconnectAction::Ping { timeout } ==> timeout == task.timeout
            &&& action matches ReconnectAction::DeclareQueues { timeout } ==> timeout
                == task.timeout
        },
    decreases events.len(),
{
    if events.len() > 1 {
        requests_carry_the_timeout(task, events.drop_last());
    }
}

/// An attempt is under way exactly while fewer nanoseconds have passed than the timeout has: the
/// server is pinged if and only if there is time left.
pub proof fn server_is_pinged_while_there_is_time(task: ReconnectTask, elapsed: u128)
    requires
        task.phase is Checking,
    ensures
        (next(task, ReconnectEvent::Elapsed(elapsed)) matches ReconnectStep::Go(_, action)
            && action is Ping) <==> elapsed < task.timeout * 1_000_000_000,
        elapsed >= task.timeout * 1_000_000_000 ==> next(task, ReconnectEvent::Elapsed(elapsed))
            == ReconnectStep::Failed(task.error),
{
}

/// An attempt begins by taking the permits away, and reads the clock before anything else.
pub proof fn permits_are_taken_before_the_clock_is_read(task: ReconnectTask, permits: usize)
    requires
        task.phase is Ready,
    ensures
        next(task, ReconnectEvent::Begin) matches ReconnectStep::Go(taking, action) && action
            is ForgetPermits && expects(taking, ReconnectEvent::Forgotten(permits)) && (next(
            taking,
            ReconnectEvent::Forgotten(permits),
        ) matches ReconnectStep::Go(after, clock) && clock is ReadClock && after.permits == permits
            && after.error == task.error && after.phase is Checking),
{
}

/// The queues are declared if and only if the server replied "PONG" to the ping.
pub proof fn only_a_pong_lets_queues_be_declared(task: ReconnectTask, event: ReconnectEvent)
    requires
        expects(task, event),
    ensures
        (next(task, event) matches ReconnectStep::Go(_, action) && action is DeclareQueues) <==> (
        event matches ReconnectEvent::Pinged(PingOutcome::Replied(reply)) && reply@ == "PONG"@),
{
}

/// An attempt succeeds if and only if the queues were declared, and it is those queues that the
/// broker gets.
pub proof fn success_brings_the_declared_queues(task: ReconnectTask, event: ReconnectEvent)
    requires
        expects(task, event),
    ensures
        (next(task, event) is Succeeded) <==> (event matches ReconnectEvent::Declared(outcome)
            && outcome is Ok),
        next(task, event) matches ReconnectStep::Succeeded { queues, .. } ==> event
            == ReconnectEvent::Declared(Ok(queues)),
{
}

/// What went wrong last is what is told in the end: an error of the connection or of the
/// declaration as it came, and otherwise that the broker is not connected. After each failure
/// the clock is read.
pub proof fn the_last_failure_is_remembered(task: ReconnectTask, event: ReconnectEvent)
    requires
        expects(task, event),
    ensures
        match event {
            ReconnectEvent::Pinged(PingOutcome::Failed(e)) => next(task, event) matches
                ReconnectStep::Go(after, action) && after.error == BrokerError::RedisError(e)
                && action is ReadClock && after.phase is Checking,
            ReconnectEvent::Pinged(PingOutcome::TimedOut) => next(task, event) matches
                ReconnectStep::Go(after, action) && after.error is NotConnected && action
                is ReadClock && after.phase is Checking,
            ReconnectEvent::Pinged(PingOutcome::Replied(reply)) => reply@ != "PONG"@ ==> (next(
                task,
                event,
            ) matches ReconnectStep::Go(after, action) && after.error is NotConnected && action
                is ReadClock && after.phase is Checking),
            ReconnectEvent::Declared(Err(e)) => next(task, event) matches ReconnectStep::Go(
                after,
                action,
            ) && after.error == e && action is ReadClock && after.phase is Checking,
            _ => true,
        },
{
}

} // verus!
