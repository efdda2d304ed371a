//! Transactions: commit and rollback responses, the guard's state, and the retrying runner,
//! decided step by step.

use vstd::prelude::*;
use vstd::string::*;
use crate::error;
use crate::error::{is_retryable_conflict, ArcadeDbError, FailureView, Result};
use crate::rpc::{TransactionContext, TransactionResponse};

verus! {

// ---------------------------------------------------------------------------
// Requests and responses
// ---------------------------------------------------------------------------

/// The transaction that a commit or a rollback ends.
pub fn transaction_context(database: &str, transaction_id: &str) -> (r: TransactionContext)
    ensures
        r.transaction_id@ == transaction_id@,
        r.database@ == database@,
{
    TransactionContext {
        transaction_id: transaction_id.to_owned(),
        database: database.to_owned(),
    }
}

/// What the answer to ending a transaction means.
pub open spec fn ended(operation: Seq<char>, response: TransactionResponse, r: Result<()>) -> bool {
    match r {
        Ok(_) => response.success,
        Err(e) => !response.success && e@ == FailureView::CommandFailed(
            operation,
            response.message@,
            None,
        ),
    }
}

fn end(operation: &str, response: TransactionResponse) -> (r: Result<()>)
    ensures
        ended(operation@, response, r),
{
    if response.success {
        Ok(())
    } else {
        Err(
            ArcadeDbError::CommandFailed {
                operation: operation.to_owned(),
                message: response.message,
                affected: None,
            },
        )
    }
}

/// What the answer to a commit means.
pub fn commit_transaction(response: TransactionResponse) -> (r: Result<()>)
    ensures
        ended("commit transaction"@, response, r),
{
    end("commit transaction", response)
}

/// What the answer to a rollback means.
pub fn rollback_transaction(response: TransactionResponse) -> (r: Result<()>)
    ensures
        ended("rollback transaction"@, response, r),
{
    end("rollback transaction", response)
}

// ---------------------------------------------------------------------------
// The retrying runner
// ---------------------------------------------------------------------------

/// What is to be done next.
#[derive(Debug)]
pub enum TxAction {
    /// Begin a fresh transaction.
    Begin,
    /// Run the body in it.
    RunBody,
    Commit,
    /// Roll it back; the outcome is not looked at.
    Rollback,
    /// The body's value is the result.
    Done,
    Fail(ArcadeDbError),
}

/// What an action came to.
#[derive(Debug)]
pub enum TxEvent {
    Begun,
    BeginFailed(ArcadeDbError),
    BodyDone,
    BodyFailed(ArcadeDbError),
    Committed,
    CommitFailed(ArcadeDbError),
    RolledBack,
}

/// Where an attempt stands.
#[derive(Debug)]
pub enum TxPhase {
    Beginning,
    InBody,
    Committing,
    /// Rolling back after this failure.
    RollingBack(ArcadeDbError),
    Finished,
}

/// A transaction that is tried again after conflicts. Attempts are counted from 0.
#[derive(Debug)]
pub struct TxRunner {
    pub attempt: u32,
    pub attempts: u32,
    pub phase: TxPhase,
}

pub ghost enum TxActionView {
    Begin,
    RunBody,
    Commit,
    Rollback,
    Done,
    Fail(FailureView),
}

impl View for TxAction {
    type V = TxActionView;

    open spec fn view(&self) -> TxActionView {
        match self {
            TxAction::Begin => TxActionView::Begin,
            TxAction::RunBody => TxActionView::RunBody,
            TxAction::Commit => TxActionView::Commit,
            TxAction::Rollback => TxActionView::Rollback,
            TxAction::Done => TxActionView::Done,
            TxAction::Fail(e) => TxActionView::Fail(e@),
        }
    }
}

pub ghost enum TxEventView {
    Begun,
    BeginFailed(FailureView),
    BodyDone,
    BodyFailed(FailureView),
    Committed,
    CommitFailed(FailureView),
    RolledBack,
}

impl View for TxEvent {
    type V = TxEventView;

    open spec fn view(&self) -> TxEventView {
        match self {
            TxEvent::Begun => TxEventView::Begun,
            TxEvent::BeginFailed(e) => TxEventView::BeginFailed(e@),
            TxEvent::BodyDone => TxEventView::BodyDone,
            TxEvent::BodyFailed(e) => TxEventView::BodyFailed(e@),
            TxEvent::Committed => TxEventView::Committed,
            TxEvent::CommitFailed(e) => TxEventView::CommitFailed(e@),
            TxEvent::RolledBack => TxEventView::RolledBack,
        }
    }
}

pub ghost enum TxPhaseView {
    Beginning,
    InBody,
    Committing,
    RollingBack(FailureView),
    Finished,
}

pub ghost struct TxState {
    pub attempt: u32,
    pub attempts: u32,
    pub phase: TxPhaseView,
}

impl View for TxPhase {
    type V = TxPhaseView;

    open spec fn view(&self) -> TxPhaseView {
        match self {
            TxPhase::Beginning => TxPhaseView::Beginning,
            TxPhase::InBody => TxPhaseView::InBody,
            TxPhase::Committing => TxPhaseView::Committing,
            TxPhase::RollingBack(e) => TxPhaseView::RollingBack(e@),
            TxPhase::Finished => TxPhaseView::Finished,
        }
    }
}

impl View for TxRunner {
    type V = TxState;

    open spec fn view(&self) -> TxState {
        TxState { attempt: self.attempt, attempts: self.attempts, phase: self.phase@ }
    }
}

/// The attempts that `retries` extra tries make: one more, as far as they can be counted.
pub open spec fn attempts_of(retries: u32) -> u32 {
    if retries == u32::MAX {
        u32::MAX
    } else {
        (retries + 1) as u32
    }
}

pub open spec fn tx_first(retries: u32) -> TxState {
    TxState { attempt: 0, attempts: attempts_of(retries), phase: TxPhaseView::Beginning }
}

/// After the rollback of a failed attempt: a conflict is tried again while attempts are left,
/// anything else is the result.
pub open spec fn after_rollback(s: TxState, e: FailureView) -> (TxState, TxActionView) {
    if error::retryable(e) && s.attempt + 1 < s.attempts {
        (
            TxState { attempt: (s.attempt + 1) as u32, phase: TxPhaseView::Beginning, ..s },
            TxActionView::Begin,
        )
    } else {
        (TxState { phase: TxPhaseView::Finished, ..s }, TxActionView::Fail(e))
    }
}

/// The action that a phase waits for; a finished runner waits for none.
pub open spec fn tx_pending(s: TxState) -> TxActionView {
    match s.phase {
        TxPhaseView::Beginning => TxActionView::Begin,
        TxPhaseView::InBody => TxActionView::RunBody,
        TxPhaseView::Committing => TxActionView::Commit,
        TxPhaseView::RollingBack(_) => TxActionView::Rollback,
        TxPhaseView::Finished => arbitrary(),
    }
}

/// The next state and action. An event that does not answer the pending action changes
/// nothing.
pub open spec fn tx_next(s: TxState, event: TxEventView) -> (TxState, TxActionView) {
    match (s.phase, event) {
        (TxPhaseView::Beginning, TxEventView::Begun) => (
            TxState { phase: TxPhaseView::InBody, ..s },
            TxActionView::RunBody,
        ),
        (TxPhaseView::Beginning, TxEventView::BeginFailed(e)) => (
            TxState { phase: TxPhaseView::Finished, ..s },
            TxActionView::Fail(e),
        ),
        (TxPhaseView::InBody, TxEventView::BodyDone) => (
            TxState { phase: TxPhaseView::Committing, ..s },
            TxActionView::Commit,
        ),
        (TxPhaseView::InBody, TxEventView::BodyFailed(e)) => (
            TxState { phase: TxPhaseView::RollingBack(e), ..s },
            TxActionView::Rollback,
        ),
        (TxPhaseView::Committing, TxEventView::Committed) => (
            TxState { phase: TxPhaseView::Finished, ..s },
            TxActionView::Done,
        ),
        (TxPhaseView::Committing, TxEventView::CommitFailed(e)) => (
            TxState { phase: TxPhaseView::RollingBack(e), ..s },
            TxActionView::Rollback,
        ),
        (TxPhaseView::RollingBack(e), TxEventView::RolledBack) => after_rollback(s, e),
        _ => (s, tx_pending(s)),
    }
}

impl TxRunner {
    /// A runner with `retries` extra attempts; its first action is to begin.
    pub fn new(retries: u32) -> (r: Self)
        ensures
            r@ == tx_first(retries),
            tx_pending(r@) == TxActionView::Begin,
    {
        TxRunner {
            attempt: 0,
            attempts: if retries == u32::MAX {
                u32::MAX
            } else {
                retries + 1
            },
            phase: TxPhase::Beginning,
        }
    }

    /// Take the outcome of the last action and say what is next, until the transaction is done
    /// or has failed.
    pub fn step(&mut self, event: TxEvent) -> (action: TxAction)
        requires
            !(old(self).phase is Finished),
        ensures
            (final(self)@, action@) == tx_next(old(self)@, event@),
    {
        let mut phase = TxPhase::Finished;
        core::mem::swap(&mut phase, &mut self.phase);
        match (phase, event) {
            (TxPhase::Beginning, TxEvent::Begun) => {
                self.phase = TxPhase::InBody;
                TxAction::RunBody
            },
            (TxPhase::Beginning, TxEvent::BeginFailed(e)) => TxAction::Fail(e),
            (TxPhase::Beginning, _) => {
                self.phase = TxPhase::Beginning;
                TxAction::Begin
            },
            (TxPhase::InBody, TxEvent::BodyDone) => {
                self.phase = TxPhase::Committing;
                TxAction::Commit
            },
            (TxPhase::InBody, TxEvent::BodyFailed(e)) => {
                self.phase = TxPhase::RollingBack(e);
                TxAction::Rollback
            },
            (TxPhase::InBody, _) => {
                self.phase = TxPhase::InBody;
                TxAction::RunBody
            },
            (TxPhase::Committing, TxEvent::Committed) => TxAction::Done,
            (TxPhase::Committing, TxEvent::CommitFailed(e)) => {
                self.phase = TxPhase::RollingBack(e);
                TxAction::Rollback
            },
            (TxPhase::Committing, _) => {
                self.phase = TxPhase::Committing;
                TxAction::Commit
            },
            (TxPhase::RollingBack(e), TxEvent::RolledBack) => {
                if is_retryable_conflict(&e) && self.attempts > 0 && self.attempt < self.attempts
                    - 1 {
                    self.attempt = self.attempt + 1;
                    self.phase = TxPhase::Beginning;
                    TxAction::Begin
                } else {
                    TxAction::Fail(e)
                }
            },
            (TxPhase::RollingBack(e), _) => {
                self.phase = TxPhase::RollingBack(e);
                TxAction::Rollback
            },
            (TxPhase::Finished, _) => TxAction::Done,
        }
    }
}

// ---------------------------------------------------------------------------
// The guard
// ---------------------------------------------------------------------------

/// The state of a transaction guard: a guard that goes away unfinished rolls back.
#[derive(Debug)]
pub struct TransactionGuard {
    pub database: String,
    pub id: String,
    pub finished: bool,
}

impl TransactionGuard {
    /// The guard of a transaction that was begun.
    pub fn new(database: &str, id: String) -> (g: Self)
        ensures
            g.database@ == database@,
            g.id == id,
            !g.finished,
    {
        TransactionGuard { database: database.to_owned(), id, finished: false }
    }

    /// The server's name for the transaction.
    pub fn id(&self) -> (r: &str)
        ensures
            r@ == self.id@,
    {
        self.id.as_str()
    }

    /// A commit or a rollback is under way: nothing is left to do on drop.
    pub fn finish(&mut self)
        ensures
            final(self).finished,
            final(self).database == old(self).database,
            final(self).id == old(self).id,
    {
        self.finished = true;
    }

    /// The database and transaction to roll back when the guard goes away; none when it is
    /// finished.
    pub fn abandoned(&self) -> (r: Option<(String, String)>)
        ensures
            match r {
                Some((database, id)) => !self.finished && database@ == self.database@ && id@
                    == self.id@,
                None => self.finished,
            },
    {
        if self.finished {
            None
        } else {
            Some((self.database.clone(), self.id.clone()))
        }
    }
}

// ---------------------------------------------------------------------------
// Laws
// ---------------------------------------------------------------------------

/// How one attempt failed after its begin.
pub ghost enum Attempt {
    /// The body failed.
    Body(FailureView),
    /// The body succeeded and the commit failed.
    Commit(FailureView),
}

pub open spec fn failure_of(a: Attempt) -> FailureView {
    match a {
        Attempt::Body(e) => e,
        Attempt::Commit(e) => e,
    }
}

/// The state and action once an attempt has failed: what is to be done before the next begin.
pub open spec fn failing(s: TxState, a: Attempt) -> (TxState, TxActionView) {
    let body = tx_next(s, TxEventView::Begun).0;
    match a {
        Attempt::Body(e) => tx_next(body, TxEventView::BodyFailed(e)),
        Attempt::Commit(e) => tx_next(
            tx_next(body, TxEventView::BodyDone).0,
            TxEventView::CommitFailed(e),
        ),
    }
}

/// The state and action after an attempt that failed and was rolled back.
pub open spec fn fail_once(s: TxState, a: Attempt) -> (TxState, TxActionView) {
    tx_next(failing(s, a).0, TxEventView::RolledBack)
}

/// The state and action after `n` attempts that failed.
pub open spec fn after_failures(retries: u32, failures: Seq<Attempt>, n: nat) -> (
    TxState,
    TxActionView,
)
    decreases n,
{
    if n == 0 {
        (tx_first(retries), TxActionView::Begin)
    } else {
        fail_once(after_failures(retries, failures, (n - 1) as nat).0, failures[n - 1])
    }
}

/// A body is run at most once more than the retries: a conflict, in the body or at the commit,
/// begins a fresh attempt while there is one, and the conflict of the last attempt is the
/// result.
pub proof fn law_conflicts_are_retried(retries: u32, failures: Seq<Attempt>, n: nat)
    requires
        0 < n <= attempts_of(retries),
        n <= failures.len(),
        forall|i: int| 0 <= i < n ==> error::retryable(failure_of(#[trigger] failures[i])),
    ensures
        n < attempts_of(retries) ==> after_failures(retries, failures, n) == (
            TxState {
                attempt: n as u32,
                attempts: attempts_of(retries),
                phase: TxPhaseView::Beginning,
            },
            TxActionView::Begin,
        ),
        n == attempts_of(retries) ==> after_failures(retries, failures, n).1 == TxActionView::Fail(
            failure_of(failures[n - 1]),
        ),
    decreases n,
{
    if n > 1 {
        law_conflicts_are_retried(retries, failures, (n - 1) as nat);
    } else {
        assert(after_failures(retries, failures, 0) == (tx_first(retries), TxActionView::Begin));
    }
    let before = after_failures(retries, failures, (n - 1) as nat).0;
    assert(before.phase is Beginning && before.attempt == n - 1);
    assert(error::retryable(failure_of(failures[n - 1])));
}

/// A failure that is no conflict, in the body or at the commit, ends the run with that failure.
pub proof fn law_other_failures_end_the_run(s: TxState, a: Attempt)
    requires
        s.phase is Beginning,
        !error::retryable(failure_of(a)),
    ensures
        fail_once(s, a).1 == TxActionView::Fail(failure_of(a)),
        fail_once(s, a).0.phase is Finished,
{
}

/// A failed attempt is rolled back whether its body or its commit failed.
pub proof fn law_failed_attempts_are_rolled_back(s: TxState, a: Attempt)
    requires
        s.phase is Beginning,
    ensures
        failing(s, a).1 == TxActionView::Rollback,
{
}

/// After any number of conflicts that left an attempt, a body and a commit that succeed end
/// the run with the body's value.
pub proof fn law_success_after_conflicts(retries: u32, failures: Seq<Attempt>, n: nat)
    requires
        n < attempts_of(retries),
        n <= failures.len(),
        forall|i: int| 0 <= i < n ==> error::retryable(failure_of(#[trigger] failures[i])),
    ensures
        ({
            let s = after_failures(retries, failures, n).0;
            let done = tx_next(tx_next(s, TxEventView::Begun).0, TxEventView::BodyDone).0;
            tx_next(done, TxEventView::Committed).1 == TxActionView::Done
        }),
{
    if n > 0 {
        law_conflicts_are_retried(retries, failures, n);
    }
}

/// Between the begin of a transaction and the begin of the next, or the end of the run, there
/// is a rollback or a commit: no step leaves a begun transaction behind.
pub proof fn law_every_transaction_is_ended(s: TxState, event: TxEventView)
    requires
        !(s.phase is Finished),
    ensures
        tx_next(s, event).1 is Begin ==> s.phase is Beginning || s.phase is RollingBack,
        tx_next(s, event).1 is Done ==> s.phase is Committing && event is Committed,
        tx_next(s, event).1 is Fail ==> (s.phase is Beginning && event is BeginFailed)
            || s.phase is RollingBack,
{
}

/// A body may run once more often than it may be retried, up to the largest count.
pub proof fn law_a_body_runs_once_more_than_it_is_retried(retries: u32)
    ensures
        retries < u32::MAX ==> attempts_of(retries) == retries + 1,
        retries == u32::MAX ==> attempts_of(retries) == u32::MAX,
        tx_first(retries).attempt == 0,
        tx_first(retries).attempts == attempts_of(retries),
        tx_first(retries).phase is Beginning,
{
}

/// A run goes from the begin to the body, from the body to the commit, and from the commit to
/// the end. A failed begin ends it with its failure; an event that the phase does not wait for
/// changes nothing and asks for the same action again.
pub proof fn law_a_run_goes_in_order(s: TxState, e: FailureView, event: TxEventView)
    ensures
        s.phase is Beginning ==> tx_next(s, TxEventView::Begun) == (
            TxState { phase: TxPhaseView::InBody, ..s },
            TxActionView::RunBody,
        ),
        s.phase is Beginning ==> tx_next(s, TxEventView::BeginFailed(e)) == (
            TxState { phase: TxPhaseView::Finished, ..s },
            TxActionView::Fail(e),
        ),
        s.phase is InBody ==> tx_next(s, TxEventView::BodyDone) == (
            TxState { phase: TxPhaseView::Committing, ..s },
            TxActionView::Commit,
        ),
        s.phase is Committing ==> tx_next(s, TxEventView::Committed) == (
            TxState { phase: TxPhaseView::Finished, ..s },
            TxActionView::Done,
        ),
        s.phase is InBody ==> tx_next(s, TxEventView::BodyFailed(e)) == (
            TxState { phase: TxPhaseView::RollingBack(e), ..s },
            TxActionView::Rollback,
        ),
        s.phase is Committing ==> tx_next(s, TxEventView::CommitFailed(e)) == (
            TxState { phase: TxPhaseView::RollingBack(e), ..s },
            TxActionView::Rollback,
        ),
        s.phase is Beginning && !(event is Begun || event is BeginFailed) ==> tx_next(s, event) == (
            s,
            TxActionView::Begin,
        ),
        s.phase is InBody && !(event is BodyDone || event is BodyFailed) ==> tx_next(s, event) == (
            s,
            TxActionView::RunBody,
        ),
        s.phase is Committing && !(event is Committed || event is CommitFailed) ==> tx_next(
            s,
            event,
        ) == (s, TxActionView::Commit),
        s.phase is RollingBack && !(event is RolledBack) ==> tx_next(s, event) == (
            s,
            TxActionView::Rollback,
        ),
{
}

/// After the rollback of a failed attempt a fresh one begins exactly when the failure is a
/// conflict and attempts are left; otherwise the run ends with that failure.
pub proof fn law_only_conflicts_with_attempts_left_begin_again(s: TxState, e: FailureView)
    requires
        s.phase == TxPhaseView::RollingBack(e),
    ensures
        ({
            let (after, action) = tx_next(s, TxEventView::RolledBack);
            if error::retryable(e) && s.attempt + 1 < s.attempts {
                &&& action is Begin
                &&& after.phase is Beginning
                &&& after.attempt == s.attempt + 1
                &&& after.attempts == s.attempts
            } else {
                &&& action == TxActionView::Fail(e)
                &&& after.phase is Finished
            }
        }),
{
}

/// A transaction call succeeds exactly when the server says so; its failure carries the
/// server's message.
pub proof fn law_the_server_decides_the_end(
    operation: Seq<char>,
    response: TransactionResponse,
    r: Result<()>,
)
    requires
        ended(operation, response, r),
    ensures
        r is Ok <==> response.success,
        r matches Err(e) ==> e@ == FailureView::CommandFailed(operation, response.message@, None),
{
}

/// An action, an event and a phase are seen as what they are, with the failure that they
/// carry, and a run with its counts.
pub proof fn law_runs_are_seen_as_they_are(a: TxAction, e: TxEvent, p: TxPhase, r: TxRunner)
    ensures
        a is Begin <==> a@ is Begin,
        a is RunBody <==> a@ is RunBody,
        a is Commit <==> a@ is Commit,
        a is Rollback <==> a@ is Rollback,
        a is Done <==> a@ is Done,
        a matches TxAction::Fail(f) ==> a@ == TxActionView::Fail(f@),
        e is Begun <==> e@ is Begun,
        e matches TxEvent::BeginFailed(f) ==> e@ == TxEventView::BeginFailed(f@),
        e is BodyDone <==> e@ is BodyDone,
        e matches TxEvent::BodyFailed(f) ==> e@ == TxEventView::BodyFailed(f@),
        e is Committed <==> e@ is Committed,
        e matches TxEvent::CommitFailed(f) ==> e@ == TxEventView::CommitFailed(f@),
        e is RolledBack <==> e@ is RolledBack,
        p is Beginning <==> p@ is Beginning,
        p is InBody <==> p@ is InBody,
        p is Committing <==> p@ is Committing,
        p matches TxPhase::RollingBack(f) ==> p@ == TxPhaseView::RollingBack(f@),
        p is Finished <==> p@ is Finished,
        r@.attempt == r.attempt && r@.attempts == r.attempts && r@.phase == r.phase@,
{
}

} // verus!
