//! The connection manager: the single shared connection is opened and
//! configured by one caller, and published only once fully configured.

use vstd::prelude::*;
use vstd::string::*;
use crate::error::AppError;

verus! {

/// Number of session statements applied after a connection is opened.
pub const SESSION_STATEMENTS: usize = 4;

/// The session statements, in the order they are applied: write-ahead
/// logging, normal synchronous durability, the page cache budget and
/// foreign-key enforcement.
pub open spec fn session_statement_text(i: int) -> Seq<char> {
    if i == 0 {
        "PRAGMA journal_mode = WAL"@
    } else if i == 1 {
        "PRAGMA synchronous = NORMAL"@
    } else if i == 2 {
        "PRAGMA cache_size = 10000"@
    } else {
        "PRAGMA foreign_keys = ON"@
    }
}

pub fn session_statement(i: usize) -> (r: &'static str)
    requires
        i < SESSION_STATEMENTS,
    ensures
        r@ == session_statement_text(i as int),
{
    if i == 0 {
        "PRAGMA journal_mode = WAL"
    } else if i == 1 {
        "PRAGMA synchronous = NORMAL"
    } else if i == 2 {
        "PRAGMA cache_size = 10000"
    } else {
        "PRAGMA foreign_keys = ON"
    }
}

/// Where the single shared connection stands. Opening and configuring
/// together are the initialisation; only `Ready` hands the connection out.
#[derive(Debug)]
pub enum ConnectionState<H> {
    Uninitialized,
    /// One caller is opening the connection.
    Opening,
    /// Open, with the first `applied` session statements done.
    Configuring { handle: H, applied: usize },
    Ready { handle: H },
}

/// What a caller that wants the connection does next.
#[derive(Debug, Clone, Copy, PartialEq, Eq, Structural)]
pub enum Acquire {
    /// Open the connection and configure it: this caller initialises.
    Open,
    /// Another caller is initialising: wait for it and ask again.
    Wait,
    /// Use the published connection.
    Ready,
}

/// The answer to one request for the connection, and the state after it.
pub open spec fn acquire_step<H>(s: ConnectionState<H>) -> (Acquire, ConnectionState<H>) {
    match s {
        ConnectionState::Uninitialized => (Acquire::Open, ConnectionState::Opening),
        ConnectionState::Ready { .. } => (Acquire::Ready, s),
        _ => (Acquire::Wait, s),
    }
}

/// The state after a session statement succeeded (`ok`) or failed. A failure
/// drops the connection; the last success publishes it.
pub open spec fn statement_step<H>(s: ConnectionState<H>, ok: bool) -> ConnectionState<H> {
    match s {
        ConnectionState::Configuring { handle, applied } => if !ok {
            ConnectionState::Uninitialized
        } else if applied + 1 >= SESSION_STATEMENTS {
            ConnectionState::Ready { handle }
        } else {
            ConnectionState::Configuring { handle, applied: (applied + 1) as usize }
        },
        _ => s,
    }
}

/// The manager of the one shared connection, with handle type `H`. Callers
/// reach it one at a time (under a lock); it decides who initialises.
pub struct ConnectionManager<H> {
    state: ConnectionState<H>,
}

impl<H> View for ConnectionManager<H> {
    type V = ConnectionState<H>;

    closed spec fn view(&self) -> ConnectionState<H> {
        self.state
    }
}

impl<H> ConnectionManager<H> {
    pub open spec fn wf(&self) -> bool {
        self@ matches ConnectionState::Configuring { applied, .. } ==> applied < SESSION_STATEMENTS
    }

    pub fn new() -> (r: ConnectionManager<H>)
        ensures
            r.wf(),
            r@ is Uninitialized,
    {
        ConnectionManager { state: ConnectionState::Uninitialized }
    }

    pub fn state(&self) -> (r: &ConnectionState<H>)
        ensures
            *r == self@,
    {
        &self.state
    }

    /// A request for the connection.
    pub fn acquire(&mut self) -> (r: Acquire)
        requires
            old(self).wf(),
        ensures
            final(self).wf(),
            (r, final(self)@) == acquire_step(old(self)@),
    {
        match self.state {
            ConnectionState::Uninitialized => {
                self.state = ConnectionState::Opening;
                Acquire::Open
            },
            ConnectionState::Ready { .. } => Acquire::Ready,
            _ => Acquire::Wait,
        }
    }

    /// The connection was opened: configuration begins.
    pub fn opened(&mut self, handle: H)
        requires
            old(self).wf(),
            old(self)@ is Opening,
        ensures
            final(self).wf(),
            final(self)@ == (ConnectionState::Configuring { handle, applied: 0 }),
    {
        self.state = ConnectionState::Configuring { handle, applied: 0 };
    }

    /// Opening failed: the manager starts over, and the failure is a database
    /// error.
    pub fn open_failed(&mut self, message: &str) -> (e: AppError)
        requires
            old(self).wf(),
            old(self)@ is Opening,
        ensures
            final(self).wf(),
            final(self)@ is Uninitialized,
            e matches AppError::Database { message: m, .. } && m@ == message@,
    {
        self.state = ConnectionState::Uninitialized;
        AppError::database(message)
    }

    /// The session statement to apply next, while configuring.
    pub fn next_statement(&self) -> (r: Option<&'static str>)
        requires
            self.wf(),
        ensures
            match self@ {
                ConnectionState::Configuring { applied, .. } => r is Some && r->0@
                    == session_statement_text(applied as int),
                _ => r is None,
            },
    {
        match &self.state {
            ConnectionState::Configuring { applied, .. } => Some(session_statement(*applied)),
            _ => None,
        }
    }

    /// The outcome of the session statement in flight. On success the next one
    /// is due, or, after the last, the connection is published (`Ok(true)`).
    /// On failure the connection is dropped, nothing is published, and the
    /// failure is a database error that names the statement.
    pub fn statement_applied(&mut self, outcome: Result<(), String>) -> (r: Result<bool, AppError>)
        requires
            old(self).wf(),
            old(self)@ is Configuring,
        ensures
            final(self).wf(),
            final(self)@ == statement_step(old(self)@, outcome is Ok),
            outcome is Ok ==> r == Ok::<bool, AppError>(final(self)@ is Ready),
            outcome is Err ==> (r matches Err(AppError::Database { message, query, .. })
                && message@ == outcome->Err_0@ && query is Some
                && query->0@ == session_statement_text(old(self)@->Configuring_applied as int)),
    {
        let mut s = ConnectionState::Uninitialized;
        std::mem::swap(&mut s, &mut self.state);
        match s {
            ConnectionState::Configuring { handle, applied } => match outcome {
                Ok(()) => {
                    if applied + 1 >= SESSION_STATEMENTS {
                        self.state = ConnectionState::Ready { handle };
                        Ok(true)
                    } else {
                        self.state = ConnectionState::Configuring { handle, applied: applied + 1 };
                        Ok(false)
                    }
                },
                Err(msg) => Err(AppError::database_with_query(msg.as_str(), session_statement(applied))),
            },
            _ => {
                self.state = s;
                Ok(false)
            },
        }
    }

    /// The published connection, once initialisation is complete.
    pub fn handle(&self) -> (r: Option<&H>)
        ensures
            match self@ {
                ConnectionState::Ready { handle } => r == Some(&handle),
                _ => r is None,
            },
    {
        match &self.state {
            ConnectionState::Ready { handle } => Some(handle),
            _ => None,
        }
    }
}

/// The number of `Open` answers among `n` successive requests from `s`, with
/// no initialisation step completing in between.
pub open spec fn opens_among<H>(s: ConnectionState<H>, n: nat) -> nat
    decreases n,
{
    if n == 0 {
        0
    } else {
        let (a, t) = acquire_step(s);
        (if a == Acquire::Open {
            1nat
        } else {
            0nat
        }) + opens_among(t, (n - 1) as nat)
    }
}

/// The state after `n` successive requests from `s`.
pub open spec fn after_requests<H>(s: ConnectionState<H>, n: nat) -> ConnectionState<H>
    decreases n,
{
    if n == 0 {
        s
    } else {
        after_requests(acquire_step(s).1, (n - 1) as nat)
    }
}

/// The state after the session statements in flight succeed or fail in turn.
pub open spec fn after_statements<H>(s: ConnectionState<H>, oks: Seq<bool>) -> ConnectionState<H>
    decreases oks.len(),
{
    if oks.len() == 0 {
        s
    } else {
        after_statements(statement_step(s, oks[0]), oks.drop_first())
    }
}

proof fn lemma_waiting_never_opens<H>(s: ConnectionState<H>, n: nat)
    requires
        !(s is Uninitialized),
    ensures
        opens_among(s, n) == 0,
        after_requests(s, n) == s,
    decreases n,
{
    if n > 0 {
        lemma_waiting_never_opens(s, (n - 1) as nat);
    }
}

/// On a cold start, of any number of callers that ask for the connection
/// before initialisation ends, exactly one is told to open it.
pub proof fn single_initialization<H>(n: nat)
    requires
        n >= 1,
    ensures
        opens_among(ConnectionState::<H>::Uninitialized, n) == 1,
{
    lemma_waiting_never_opens(ConnectionState::<H>::Opening, (n - 1) as nat);
}

/// Once the connection is published, every caller is handed that same
/// connection and the manager stays as it is.
pub proof fn ready_is_shared<H>(handle: H, n: nat)
    ensures
        opens_among(ConnectionState::Ready { handle }, n) == 0,
        after_requests(ConnectionState::Ready { handle }, n) == (ConnectionState::Ready { handle }),
{
    lemma_waiting_never_opens(ConnectionState::Ready { handle }, n);
}

proof fn lemma_uninitialized_stays<H>(oks: Seq<bool>)
    ensures
        after_statements(ConnectionState::<H>::Uninitialized, oks) is Uninitialized,
    decreases oks.len(),
{
    if oks.len() > 0 {
        lemma_uninitialized_stays::<H>(oks.drop_first());
    }
}

proof fn lemma_ready_stays<H>(handle: H, oks: Seq<bool>)
    ensures
        after_statements(ConnectionState::Ready { handle }, oks) == (ConnectionState::Ready { handle }),
    decreases oks.len(),
{
    if oks.len() > 0 {
        lemma_ready_stays(handle, oks.drop_first());
    }
}

proof fn lemma_configuring<H>(handle: H, applied: usize, oks: Seq<bool>)
    requires
        applied < SESSION_STATEMENTS,
    ensures
        (after_statements(ConnectionState::Configuring { handle, applied }, oks) is Ready) <==> (
        oks.len() >= SESSION_STATEMENTS - applied && forall|i: int|
            0 <= i < SESSION_STATEMENTS - applied ==> #[trigger] oks[i]),
        (exists|i: int| 0 <= i < oks.len() && i < SESSION_STATEMENTS - applied && !#[trigger] oks[i])
            ==> after_statements(ConnectionState::Configuring { handle, applied }, oks) is Uninitialized,
        after_statements(ConnectionState::Configuring { handle, applied }, oks) is Ready
            ==> after_statements(ConnectionState::Configuring { handle, applied }, oks) == (
        ConnectionState::Ready { handle }),
    decreases oks.len(),
{
    let s = ConnectionState::Configuring { handle, applied };
    if oks.len() > 0 {
        let rest = oks.drop_first();
        if !oks[0] {
            lemma_uninitialized_stays::<H>(rest);
        } else if applied + 1 >= SESSION_STATEMENTS {
            lemma_ready_stays(handle, rest);
        } else {
            lemma_configuring(handle, (applied + 1) as usize, rest);
            if exists|i: int| 0 <= i < oks.len() && i < SESSION_STATEMENTS - applied && !#[trigger] oks[i] {
                let i = choose|i: int| 0 <= i < oks.len() && i < SESSION_STATEMENTS - applied && !#[trigger] oks[i];
                assert(rest[i - 1] == oks[i]);
            }
            if rest.len() >= SESSION_STATEMENTS - applied - 1 && forall|i: int|
                0 <= i < SESSION_STATEMENTS - applied - 1 ==> #[trigger] rest[i] {
                assert forall|i: int| 0 <= i < SESSION_STATEMENTS - applied implies #[trigger] oks[i] by {
                    if i > 0 {
                        assert(oks[i] == rest[i - 1]);
                    }
                }
            }
            if oks.len() >= SESSION_STATEMENTS - applied && forall|i: int|
                0 <= i < SESSION_STATEMENTS - applied ==> #[trigger] oks[i] {
                assert forall|i: int| 0 <= i < SESSION_STATEMENTS - applied - 1 implies #[trigger] rest[i] by {
                    assert(rest[i] == oks[i + 1]);
                }
            }
        }
    }
}

/// After the connection opens, it is published only if all the session
/// statements succeed, and then it is the connection that was opened; a
/// failure of any of them leaves the manager uninitialised.
pub proof fn configuration_is_atomic<H>(handle: H, oks: Seq<bool>)
    ensures
        (after_statements(ConnectionState::Configuring { handle, applied: 0 }, oks) is Ready) <==> (
        oks.len() >= SESSION_STATEMENTS && forall|i: int| 0 <= i < SESSION_STATEMENTS ==> #[trigger] oks[i]),
        (exists|i: int| 0 <= i < oks.len() && i < SESSION_STATEMENTS && !#[trigger] oks[i])
            ==> after_statements(ConnectionState::Configuring { handle, applied: 0 }, oks) is Uninitialized,
        after_statements(ConnectionState::Configuring { handle, applied: 0 }, oks) is Ready
            ==> after_statements(ConnectionState::Configuring { handle, applied: 0 }, oks) == (
        ConnectionState::Ready { handle }),
{
    lemma_configuring(handle, 0, oks);
}

} // verus!
