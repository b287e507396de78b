//! The state machine of one login attempt. It decides; the caller performs
//! the network calls and hands back what came of them as events.

use vstd::prelude::*;

verus! {

/// How long, in seconds, a login attempt may wait for the user to scan.
pub const LOGIN_TIMEOUT_SECS: u64 = 300;

/// Seconds between two status checks.
pub const POLL_INTERVAL_SECS: u64 = 2;

/// Where a login attempt stands.
#[derive(PartialEq, Eq, Structural, Clone, Copy, Debug)]
pub enum PollState {
    /// Waiting for the user to scan the login code.
    AwaitingScan,
    /// The login was confirmed; its ticket is being exchanged.
    Authorized,
    /// The final code was obtained and the session was started.
    Completed,
    /// The deadline passed before the login was confirmed.
    TimedOut,
    /// A status check or the ticket exchange failed.
    Failed,
}

/// What happened since the last step.
#[derive(Debug)]
pub enum PollEvent {
    /// The poll interval went by; `elapsed_secs` have passed since the attempt began.
    Tick { elapsed_secs: u64 },
    /// A status check answered with these fields.
    Status { ok: Option<i64>, ticket: Option<String> },
    /// A status check could not be made or its answer could not be read.
    StatusFailed,
    /// The ticket was exchanged for this final authorization code.
    AuthCode { code: String },
    /// The ticket exchange could not be made or its answer could not be read.
    ExchangeFailed,
}

/// What the caller is to do next.
#[derive(Debug)]
pub enum PollAction {
    /// Ask the login service whether the code was scanned.
    CheckStatus,
    /// Exchange this ticket for the final authorization code.
    ExchangeTicket { ticket: String },
    /// Start the automation process with this code, replacing the user's
    /// current one.
    StartSession { code: String },
    /// Nothing until the next event.
    Wait,
    /// The attempt is over.
    Stop,
}

pub open spec fn is_terminal(s: PollState) -> bool {
    s == PollState::Completed || s == PollState::TimedOut || s == PollState::Failed
}

/// The state and action that `event` leads to from `s`, for an attempt with
/// a deadline of `timeout` seconds.
pub open spec fn next(s: PollState, timeout: u64, event: PollEvent) -> (PollState, PollAction) {
    if is_terminal(s) {
        (s, PollAction::Stop)
    } else if s == PollState::AwaitingScan {
        match event {
            PollEvent::Tick { elapsed_secs } => if elapsed_secs >= timeout {
                (PollState::TimedOut, PollAction::Stop)
            } else {
                (PollState::AwaitingScan, PollAction::CheckStatus)
            },
            PollEvent::Status { ok, ticket } => if ok == Some(1i64) {
                match ticket {
                    Some(t) => (PollState::Authorized, PollAction::ExchangeTicket { ticket: t }),
                    None => (PollState::Failed, PollAction::Stop),
                }
            } else {
                (PollState::AwaitingScan, PollAction::Wait)
            },
            PollEvent::StatusFailed => (PollState::Failed, PollAction::Stop),
            _ => (PollState::AwaitingScan, PollAction::Wait),
        }
    } else {
        match event {
            PollEvent::AuthCode { code } => (
                PollState::Completed,
                PollAction::StartSession { code },
            ),
            PollEvent::ExchangeFailed => (PollState::Failed, PollAction::Stop),
            _ => (PollState::Authorized, PollAction::Wait),
        }
    }
}

/// The state reached from `s` through `events`, and the actions asked for on
/// the way, in order.
pub open spec fn run(s: PollState, timeout: u64, events: Seq<PollEvent>) -> (
    PollState,
    Seq<PollAction>,
)
    decreases events.len(),
{
    if events.len() == 0 {
        (s, Seq::empty())
    } else {
        let (s1, acts) = run(s, timeout, events.drop_last());
        let (s2, a) = next(s1, timeout, events.last());
        (s2, acts.push(a))
    }
}

/// How many of `acts` start a session.
pub open spec fn session_starts(acts: Seq<PollAction>) -> nat
    decreases acts.len(),
{
    if acts.len() == 0 {
        0
    } else {
        session_starts(acts.drop_last()) + if acts.last() is StartSession {
            1nat
        } else {
            0nat
        }
    }
}

/// One login attempt: it checks the status on each tick until the login is
/// confirmed or the deadline passes, then exchanges the ticket and asks for
/// the session to be started, once.
pub struct LoginPoller {
    state: PollState,
    timeout_secs: u64,
    interval_secs: u64,
}

impl LoginPoller {
    pub closed spec fn state_spec(&self) -> PollState {
        self.state
    }

    pub closed spec fn timeout_spec(&self) -> u64 {
        self.timeout_secs
    }

    pub closed spec fn interval_spec(&self) -> u64 {
        self.interval_secs
    }

    /// A fresh attempt, waiting for the scan, with the given deadline and poll
    /// interval in seconds.
    pub fn new(timeout_secs: u64, interval_secs: u64) -> (r: LoginPoller)
        ensures
            r.state_spec() == PollState::AwaitingScan,
            r.timeout_spec() == timeout_secs,
            r.interval_spec() == interval_secs,
    {
        LoginPoller { state: PollState::AwaitingScan, timeout_secs, interval_secs }
    }

    /// A fresh attempt with the standard deadline and poll interval.
    pub fn with_defaults() -> (r: LoginPoller)
        ensures
            r.state_spec() == PollState::AwaitingScan,
            r.timeout_spec() == LOGIN_TIMEOUT_SECS,
            r.interval_spec() == POLL_INTERVAL_SECS,
    {
        LoginPoller::new(LOGIN_TIMEOUT_SECS, POLL_INTERVAL_SECS)
    }

    pub fn state(&self) -> (r: PollState)
        ensures
            r == self.state_spec(),
    {
        self.state
    }

    pub fn timeout_secs(&self) -> (r: u64)
        ensures
            r == self.timeout_spec(),
    {
        self.timeout_secs
    }

    pub fn interval_secs(&self) -> (r: u64)
        ensures
            r == self.interval_spec(),
    {
        self.interval_secs
    }

    /// Whether the attempt is over.
    pub fn is_finished(&self) -> (r: bool)
        ensures
            r == is_terminal(self.state_spec()),
    {
        match self.state {
            PollState::Completed | PollState::TimedOut | PollState::Failed => true,
            _ => false,
        }
    }

    /// Takes in one event and says what to do next.
    pub fn step(&mut self, event: PollEvent) -> (r: PollAction)
        ensures
            (final(self).state_spec(), r) == next(old(self).state_spec(), old(self).timeout_spec(), event),
            final(self).timeout_spec() == old(self).timeout_spec(),
            final(self).interval_spec() == old(self).interval_spec(),
    {
        match self.state {
            PollState::Completed | PollState::TimedOut | PollState::Failed => PollAction::Stop,
            PollState::AwaitingScan => match event {
                PollEvent::Tick { elapsed_secs } => {
                    if elapsed_secs >= self.timeout_secs {
                        self.state = PollState::TimedOut;
                        PollAction::Stop
                    } else {
                        PollAction::CheckStatus
                    }
                },
                PollEvent::Status { ok, ticket } => {
                    if ok == Some(1i64) {
                        match ticket {
                            Some(t) => {
                                self.state = PollState::Authorized;
                                PollAction::ExchangeTicket { ticket: t }
                            },
                            None => {
                                self.state = PollState::Failed;
                                PollAction::Stop
                            },
                        }
                    } else {
                        PollAction::Wait
                    }
                },
                PollEvent::StatusFailed => {
                    self.state = PollState::Failed;
                    PollAction::Stop
                },
                _ => PollAction::Wait,
            },
            PollState::Authorized => match event {
                PollEvent::AuthCode { code } => {
                    self.state = PollState::Completed;
                    PollAction::StartSession { code }
                },
                PollEvent::ExchangeFailed => {
                    self.state = PollState::Failed;
                    PollAction::Stop
                },
                _ => PollAction::Wait,
            },
        }
    }
}

/// Over any sequence of events, an attempt asks for at most one session
/// start; it asks for one exactly when it ends up completed, and an attempt
/// that timed out asked for none.
pub proof fn lemma_at_most_one_start(timeout: u64, events: Seq<PollEvent>)
    ensures
        ({
            let (s, acts) = run(PollState::AwaitingScan, timeout, events);
            &&& session_starts(acts) <= 1
            &&& (session_starts(acts) == 1 <==> s == PollState::Completed)
            &&& s == PollState::TimedOut ==> session_starts(acts) == 0
        }),
    decreases events.len(),
{
    if events.len() > 0 {
        lemma_at_most_one_start(timeout, events.drop_last());
        let (s1, acts1) = run(PollState::AwaitingScan, timeout, events.drop_last());
        let (s2, a) = next(s1, timeout, events.last());
        assert(acts1.push(a).drop_last() =~= acts1);
    }
}

/// Once the login is confirmed, the deadline no longer applies: ticks leave
/// the attempt authorized, and the exchanged code completes it with exactly
/// one session start, for that code.
pub proof fn lemma_authorized_completes(
    timeout: u64,
    events: Seq<PollEvent>,
    elapsed_secs: u64,
    code: String,
)
    requires
        run(PollState::AwaitingScan, timeout, events).0 == PollState::Authorized,
    ensures
        run(PollState::AwaitingScan, timeout, events.push(PollEvent::Tick { elapsed_secs })).0
            == PollState::Authorized,
        ({
            let (s, acts) = run(
                PollState::AwaitingScan,
                timeout,
                events.push(PollEvent::AuthCode { code }),
            );
            &&& s == PollState::Completed
            &&& session_starts(acts) == 1
            &&& acts.last() == PollAction::StartSession { code }
        }),
{
    let tick = events.push(PollEvent::Tick { elapsed_secs });
    let done = events.push(PollEvent::AuthCode { code });
    assert(tick.drop_last() =~= events);
    assert(done.drop_last() =~= events);
    lemma_at_most_one_start(timeout, done);
}

} // verus!
