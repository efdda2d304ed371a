//! Connecting: the retries of the dial and the optional creation of the database, decided step
//! by step. Each step names the next action; its outcome is handed back as an event.

use vstd::prelude::*;
use vstd::string::*;
use crate::error;
use crate::error::{map_rpc_error, ArcadeDbError, FailureView, Result, Status, StatusView};
use crate::options;
use crate::options::{ClientOptions, Duration};
use crate::text;

verus! {

/// What is to be done next.
#[derive(Debug)]
pub enum Action {
    /// Dial the endpoint once.
    Dial,
    /// Wait before the next attempt.
    Sleep(Duration),
    /// Ask the server whether the database exists.
    AskExists,
    /// Create the database, as a graph database.
    Create,
    /// The connection stands.
    Ready,
    /// Give up.
    Fail(ArcadeDbError),
}

/// What an action came to.
#[derive(Debug)]
pub enum Event {
    Dialed,
    /// The dial failed, for this reason.
    Refused(String),
    Slept,
    Existence(core::result::Result<bool, Status>),
    Creation(core::result::Result<(), Status>),
}

/// Where the attempt to connect stands. Dials are counted from 0.
#[derive(Debug, Clone, Copy, PartialEq, Eq, Structural)]
pub enum Phase {
    Dialing(u32),
    Waiting(u32),
    Checking,
    Creating,
    Finished,
}

/// An attempt to connect.
#[derive(Debug)]
pub struct Connecting {
    pub options: ClientOptions,
    pub phase: Phase,
    /// Why the last dial failed.
    pub last: Option<String>,
}

// ---------------------------------------------------------------------------
// Model
// ---------------------------------------------------------------------------

pub ghost enum ActionView {
    Dial,
    Sleep(Duration),
    AskExists,
    Create,
    Ready,
    Fail(FailureView),
}

impl View for Action {
    type V = ActionView;

    open spec fn view(&self) -> ActionView {
        match self {
            Action::Dial => ActionView::Dial,
            Action::Sleep(d) => ActionView::Sleep(*d),
            Action::AskExists => ActionView::AskExists,
            Action::Create => ActionView::Create,
            Action::Ready => ActionView::Ready,
            Action::Fail(e) => ActionView::Fail(e@),
        }
    }
}

pub ghost enum EventView {
    Dialed,
    Refused(Seq<char>),
    Slept,
    Exists(bool),
    ExistsFailed(StatusView),
    Created,
    CreateFailed(StatusView),
}

impl View for Event {
    type V = EventView;

    open spec fn view(&self) -> EventView {
        match self {
            Event::Dialed => EventView::Dialed,
            Event::Refused(why) => EventView::Refused(why@),
            Event::Slept => EventView::Slept,
            Event::Existence(Ok(b)) => EventView::Exists(*b),
            Event::Existence(Err(s)) => EventView::ExistsFailed(s@),
            Event::Creation(Ok(_)) => EventView::Created,
            Event::Creation(Err(s)) => EventView::CreateFailed(s@),
        }
    }
}

/// What the decisions depend on.
pub ghost struct Policy {
    pub addr: Seq<char>,
    pub database: Seq<char>,
    pub attempts: u32,
    pub backoff: Duration,
    pub create: bool,
}

pub open spec fn policy_of(o: ClientOptions) -> Policy {
    Policy {
        addr: o.addr@,
        database: o.database@,
        attempts: o.connect_attempts,
        backoff: o.connect_backoff,
        create: o.open_or_create,
    }
}

pub ghost struct State {
    pub phase: Phase,
    pub last: Option<Seq<char>>,
}

impl Connecting {
    pub open spec fn state(&self) -> State {
        State { phase: self.phase, last: text::optional(self.last) }
    }
}

/// Why an attempt to connect gives up.
pub open spec fn gave_up(p: Policy, last: Option<Seq<char>>) -> FailureView {
    FailureView::Connect(p.addr, p.attempts, last)
}

pub open spec fn finished(s: State, action: ActionView) -> (State, ActionView) {
    (State { phase: Phase::Finished, ..s }, action)
}

/// The dial of attempt `n`, or giving up when there is none.
pub open spec fn dial_or_give_up(p: Policy, s: State, n: int) -> (State, ActionView) {
    if n < p.attempts {
        (State { phase: Phase::Dialing(n as u32), ..s }, ActionView::Dial)
    } else {
        finished(s, ActionView::Fail(gave_up(p, s.last)))
    }
}

/// The action that a phase waits for; a finished connect waits for none.
pub open spec fn pending(p: Policy, s: State) -> ActionView {
    match s.phase {
        Phase::Dialing(_) => ActionView::Dial,
        Phase::Waiting(_) => ActionView::Sleep(p.backoff),
        Phase::Checking => ActionView::AskExists,
        Phase::Creating => ActionView::Create,
        Phase::Finished => arbitrary(),
    }
}

/// The next state and action. An event that does not answer the pending action changes
/// nothing.
pub open spec fn next(p: Policy, s: State, event: EventView) -> (State, ActionView) {
    match (s.phase, event) {
        (Phase::Dialing(_), EventView::Dialed) => if p.create {
            (State { phase: Phase::Checking, ..s }, ActionView::AskExists)
        } else {
            finished(s, ActionView::Ready)
        },
        (Phase::Dialing(n), EventView::Refused(why)) => (
            State { phase: Phase::Waiting(n), last: Some(why) },
            ActionView::Sleep(p.backoff),
        ),
        (Phase::Waiting(n), EventView::Slept) => dial_or_give_up(p, s, n + 1),
        (Phase::Checking, EventView::Exists(true)) => finished(s, ActionView::Ready),
        (Phase::Checking, EventView::Exists(false)) => (
            State { phase: Phase::Creating, ..s },
            ActionView::Create,
        ),
        (Phase::Checking, EventView::ExistsFailed(status)) => finished(
            s,
            ActionView::Fail(
                error::rpc_failure("exists database (open_or_create)"@, p.database, status),
            ),
        ),
        (Phase::Creating, EventView::Created) => finished(s, ActionView::Ready),
        (Phase::Creating, EventView::CreateFailed(status)) => {
            let failure = error::rpc_failure(
                "create database (open_or_create)"@,
                p.database,
                status,
            );
            if failure is AlreadyExists {
                finished(s, ActionView::Ready)
            } else {
                finished(s, ActionView::Fail(failure))
            }
        },
        _ => (s, pending(p, s)),
    }
}

/// The first state and action.
pub open spec fn first(p: Policy) -> (State, ActionView) {
    dial_or_give_up(p, State { phase: Phase::Finished, last: None }, 0)
}

// ---------------------------------------------------------------------------
// Steps
// ---------------------------------------------------------------------------

impl Connecting {
    /// Check the settings and start with the first dial.
    pub fn start(options: ClientOptions) -> (r: Result<(Self, Action)>)
        ensures
            match r {
                Ok((c, action)) => {
                    &&& options::problem(
                        options.addr@,
                        options.user@,
                        options.pass@,
                        options.database@,
                    ) is None
                    &&& options::endpoint_problem(
                        options::endpoint_text(options.tls, options.addr@),
                    ) is None
                    &&& c.options == options
                    &&& (c.state(), action@) == first(policy_of(options))
                },
                Err(e) => match options::problem(
                    options.addr@,
                    options.user@,
                    options.pass@,
                    options.database@,
                ) {
                    Some(p) => e@ == p,
                    None => options::endpoint_problem(
                        options::endpoint_text(options.tls, options.addr@),
                    ) matches Some(why) && e@ == FailureView::InvalidEndpoint(options.addr@, why),
                },
            },
    {
        options.validate()?;
        let _endpoint = options.endpoint()?;
        let mut c = Connecting { options, phase: Phase::Finished, last: None };
        let action = c.dial(0);
        Ok((c, action))
    }

    /// The dial of attempt `n`, or giving up when there is none.
    fn dial(&mut self, n: u32) -> (action: Action)
        ensures
            final(self).options == old(self).options,
            (final(self).state(), action@) == dial_or_give_up(
                policy_of(old(self).options),
                old(self).state(),
                n as int,
            ),
    {
        if n < self.options.connect_attempts {
            self.phase = Phase::Dialing(n);
            Action::Dial
        } else {
            self.phase = Phase::Finished;
            let source = match &self.last {
                Some(why) => Some(why.clone()),
                None => None,
            };
            Action::Fail(
                ArcadeDbError::Connect {
                    addr: self.options.addr.clone(),
                    attempts: self.options.connect_attempts,
                    source,
                },
            )
        }
    }

    fn finish(&mut self, action: Action) -> (r: Action)
        ensures
            final(self).options == old(self).options,
            (final(self).state(), r@) == finished(old(self).state(), action@),
    {
        self.phase = Phase::Finished;
        action
    }

    /// Take the outcome of the last action and say what is next, until the connection stands
    /// or has failed.
    pub fn step(&mut self, event: Event) -> (action: Action)
        requires
            old(self).phase != Phase::Finished,
        ensures
            final(self).options == old(self).options,
            (final(self).state(), action@) == next(
                policy_of(old(self).options),
                old(self).state(),
                event@,
            ),
    {
        match (self.phase, event) {
            (Phase::Dialing(_), Event::Dialed) => if self.options.open_or_create {
                self.phase = Phase::Checking;
                Action::AskExists
            } else {
                self.finish(Action::Ready)
            },
            (Phase::Dialing(n), Event::Refused(why)) => {
                self.phase = Phase::Waiting(n);
                self.last = Some(why);
                Action::Sleep(self.options.connect_backoff)
            },
            (Phase::Waiting(n), Event::Slept) => if n < u32::MAX {
                self.dial(n + 1)
            } else {
                self.dial(n)
            },
            (Phase::Checking, Event::Existence(Ok(exists))) => if exists {
                self.finish(Action::Ready)
            } else {
                self.phase = Phase::Creating;
                Action::Create
            },
            (Phase::Checking, Event::Existence(Err(status))) => {
                let e = map_rpc_error(
                    "exists database (open_or_create)",
                    self.options.database.as_str(),
                    status,
                );
                self.finish(Action::Fail(e))
            },
            (Phase::Creating, Event::Creation(Ok(_))) => self.finish(Action::Ready),
            (Phase::Creating, Event::Creation(Err(status))) => {
                let e = map_rpc_error(
                    "create database (open_or_create)",
                    self.options.database.as_str(),
                    status,
                );
                match e {
                    ArcadeDbError::AlreadyExists { what: _, message: _ } => self.finish(
                        Action::Ready,
                    ),
                    e => self.finish(Action::Fail(e)),
                }
            },
            (Phase::Dialing(_), _) => Action::Dial,
            (Phase::Waiting(_), _) => Action::Sleep(self.options.connect_backoff),
            (Phase::Checking, _) => Action::AskExists,
            (_, _) => Action::Create,
        }
    }
}

/// The error of a TLS configuration that the transport refuses.
pub fn tls_rejected(reason: &str) -> (e: ArcadeDbError)
    ensures
        e@ == FailureView::InvalidInput(
            "ClientOptions: TLS config rejected by the transport: "@ + reason@,
        ),
{
    let mut message = "ClientOptions: TLS config rejected by the transport: ".to_owned();
    message.append(reason);
    ArcadeDbError::InvalidInput { message }
}

// ---------------------------------------------------------------------------
// Laws
// ---------------------------------------------------------------------------

/// The state and action after `n` dials that were refused for these reasons.
pub open spec fn after_refusals(p: Policy, reasons: Seq<Seq<char>>, n: nat) -> (State, ActionView)
    decreases n,
{
    if n == 0 {
        first(p)
    } else {
        let s = after_refusals(p, reasons, (n - 1) as nat).0;
        let waiting = next(p, s, EventView::Refused(reasons[n - 1])).0;
        next(p, waiting, EventView::Slept)
    }
}

/// As long as fewer dials were refused than may be tried, the next one is dialed; after the
/// last the connect fails, with the number of attempts and the last reason.
pub proof fn law_gives_up_after_the_last_attempt(p: Policy, reasons: Seq<Seq<char>>, n: nat)
    requires
        n <= p.attempts,
        n <= reasons.len(),
    ensures
        n < p.attempts ==> after_refusals(p, reasons, n).1 == ActionView::Dial
            && after_refusals(p, reasons, n).0.phase == Phase::Dialing(n as u32),
        n == p.attempts && n > 0 ==> after_refusals(p, reasons, n).1 == ActionView::Fail(
            FailureView::Connect(p.addr, p.attempts, Some(reasons[n - 1])),
        ),
        n == p.attempts && n == 0 ==> after_refusals(p, reasons, n).1 == ActionView::Fail(
            FailureView::Connect(p.addr, p.attempts, None),
        ),
    decreases n,
{
    if n > 0 {
        law_gives_up_after_the_last_attempt(p, reasons, (n - 1) as nat);
        let s = after_refusals(p, reasons, (n - 1) as nat).0;
        let waiting = next(p, s, EventView::Refused(reasons[n - 1])).0;
        assert(waiting.phase == Phase::Waiting((n - 1) as u32));
        assert(waiting.last == Some(reasons[n - 1]));
    }
}

/// A dial that succeeds is the last one: without creation the connection stands, and with it
/// an existing database is left alone, a missing one is created, and losing the race to create
/// it is no failure.
pub proof fn law_racing_creators_both_connect(p: Policy, n: u32, last: Option<Seq<char>>, status: StatusView)
    requires
        status.code == error::Code::AlreadyExists || error::says_exists(status.message),
    ensures
        ({
            let dialing = State { phase: Phase::Dialing(n), last };
            let (checking, asked) = next(p, dialing, EventView::Dialed);
            let (creating, create) = next(p, checking, EventView::Exists(false));
            &&& !p.create ==> asked == ActionView::Ready
            &&& p.create ==> asked == ActionView::AskExists && create == ActionView::Create
                && next(p, checking, EventView::Exists(true)).1 == ActionView::Ready && next(
                p,
                creating,
                EventView::Created,
            ).1 == ActionView::Ready && next(p, creating, EventView::CreateFailed(status)).1
                == ActionView::Ready
        }),
{
}

/// The policy is the options' own: their address and database, attempts and pause, and
/// whether a missing database is created.
pub proof fn law_the_policy_is_the_options_own(o: ClientOptions)
    ensures
        policy_of(o).addr == o.addr@,
        policy_of(o).database == o.database@,
        policy_of(o).attempts == o.connect_attempts,
        policy_of(o).backoff == o.connect_backoff,
        policy_of(o).create == o.open_or_create,
{
}

/// A refused attempt is followed by the pause and then by the next attempt, where one is left;
/// otherwise by the failure, with the address, the attempts and the last reason.
pub proof fn law_refusals_are_followed_by_a_pause(p: Policy, s: State, n: u32, why: Seq<char>)
    requires
        s.phase == Phase::Dialing(n),
        n < u32::MAX,
    ensures
        ({
            let (waiting, pause) = next(p, s, EventView::Refused(why));
            let (after, action) = next(p, waiting, EventView::Slept);
            &&& pause == ActionView::Sleep(p.backoff)
            &&& waiting.phase == Phase::Waiting(n)
            &&& waiting.last == Some(why)
            &&& n + 1 < p.attempts ==> action == ActionView::Dial && after.phase == Phase::Dialing(
                (n + 1) as u32,
            ) && after.last == Some(why)
            &&& n + 1 >= p.attempts ==> action == ActionView::Fail(
                FailureView::Connect(p.addr, p.attempts, Some(why)),
            ) && after.phase is Finished
        }),
{
}

/// A client that may create its database asks for it first and creates it where it is missing;
/// another is ready as soon as it is connected.
pub proof fn law_only_missing_databases_are_created(p: Policy, s: State, status: StatusView)
    ensures
        s.phase is Dialing ==> next(p, s, EventView::Dialed).1 == if p.create {
            ActionView::AskExists
        } else {
            ActionView::Ready
        },
        s.phase is Dialing && p.create ==> next(p, s, EventView::Dialed).0.phase is Checking,
        s.phase is Checking ==> next(p, s, EventView::Exists(true)).1 == ActionView::Ready,
        s.phase is Checking ==> next(p, s, EventView::Exists(false)).1 == ActionView::Create
            && next(p, s, EventView::Exists(false)).0.phase is Creating,
        s.phase is Creating ==> next(p, s, EventView::Created).1 == ActionView::Ready,
        s.phase is Checking ==> next(p, s, EventView::ExistsFailed(status)).1 == ActionView::Fail(
            error::rpc_failure("exists database (open_or_create)"@, p.database, status),
        ),
        s.phase is Creating && !(error::rpc_failure(
            "create database (open_or_create)"@,
            p.database,
            status,
        ) is AlreadyExists) ==> next(p, s, EventView::CreateFailed(status)).1 == ActionView::Fail(
            error::rpc_failure("create database (open_or_create)"@, p.database, status),
        ),
{
}

/// The first action is to dial, unless no attempt is allowed.
pub proof fn law_connecting_begins_with_dialing(p: Policy)
    ensures
        p.attempts > 0 ==> first(p).1 == ActionView::Dial && first(p).0.phase == Phase::Dialing(0)
            && first(p).0.last is None,
        p.attempts == 0 ==> first(p).1 == ActionView::Fail(
            FailureView::Connect(p.addr, 0, None),
        ),
{
}

/// An event that the phase does not wait for changes nothing and asks for the same action
/// again.
pub proof fn law_stray_events_change_nothing(p: Policy, s: State, event: EventView)
    ensures
        s.phase is Dialing && !(event is Dialed || event is Refused) ==> next(p, s, event) == (
            s,
            ActionView::Dial,
        ),
        s.phase is Waiting && !(event is Slept) ==> next(p, s, event) == (
            s,
            ActionView::Sleep(p.backoff),
        ),
        s.phase is Checking && !(event is Exists || event is ExistsFailed) ==> next(p, s, event) == (
            s,
            ActionView::AskExists,
        ),
        s.phase is Creating && !(event is Created || event is CreateFailed) ==> next(p, s, event)
            == (s, ActionView::Create),
{
}

/// An action and an event are seen as what they are, with what they carry, and an attempt with
/// its phase and the last reason.
pub proof fn law_attempts_are_seen_as_they_are(a: Action, e: Event, c: Connecting)
    ensures
        a is Dial <==> a@ is Dial,
        a matches Action::Sleep(d) ==> a@ == ActionView::Sleep(d),
        a is AskExists <==> a@ is AskExists,
        a is Create <==> a@ is Create,
        a is Ready <==> a@ is Ready,
        a matches Action::Fail(f) ==> a@ == ActionView::Fail(f@),
        e is Dialed <==> e@ is Dialed,
        e matches Event::Refused(why) ==> e@ == EventView::Refused(why@),
        e is Slept <==> e@ is Slept,
        e matches Event::Existence(Ok(b)) ==> e@ == EventView::Exists(b),
        e matches Event::Existence(Err(s)) ==> e@ == EventView::ExistsFailed(s@),
        e matches Event::Creation(Ok(_)) ==> e@ is Created,
        e matches Event::Creation(Err(s)) ==> e@ == EventView::CreateFailed(s@),
        c.state().phase == c.phase,
        c.last is None <==> c.state().last is None,
        c.last matches Some(why) ==> c.state().last == Some(why@),
{
}

} // verus!
