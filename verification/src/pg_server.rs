//! The rules of the gateway around its connections: how many there may be, how
//! their queries are cancelled, how long a transaction may idle, and what may be
//! done to a socket's path.

use crate::error::SqlError;
use crate::pg_message::{error_view, error_with_severity, Message};
use crate::pg_startup::TransactionStatus;
use crate::text::owned;
use vstd::prelude::*;
use vstd::string::*;

verus! {

/// Where the gateway listens, and for how many connections.
#[derive(Clone, Debug)]
pub struct PgConfig {
    pub tcp_listen: Option<String>,
    pub unix_socket: Option<String>,
    pub max_connections: usize,
}

impl Default for PgConfig {
    fn default() -> (config: Self)
        ensures
            config.tcp_listen matches Some(t) && t@ == "127.0.0.1:5432"@,
            config.unix_socket is None,
            config.max_connections == 32,
    {
        PgConfig {
            tcp_listen: Some(owned("127.0.0.1:5432")),
            unix_socket: None,
            max_connections: 32,
        }
    }
}

// ---------------------------------------------------------------------------
// Permits
// ---------------------------------------------------------------------------

/// The count of the connections that hold a permit.
pub struct ConnectionPermit;

impl ConnectionPermit {
    /// Takes one more permit where there is one: the new count of those that
    /// are held.
    pub fn try_acquire(active: usize, max: usize) -> (held: Option<usize>)
        ensures
            held == (if active < max {
                Some((active + 1) as usize)
            } else {
                None::<usize>
            }),
    {
        if active >= max {
            return None;
        }
        Some(active + 1)
    }

    /// Gives a permit back.
    pub fn release(active: usize) -> (held: usize)
        requires
            active > 0,
        ensures
            held == active - 1,
    {
        active - 1
    }
}

// ---------------------------------------------------------------------------
// Cancellation
// ---------------------------------------------------------------------------

/// A number with its bits turned to the left.
pub open spec fn turned(value: u32, by: u32) -> u32 {
    (value << by) | (value >> ((32 - by) as u32))
}

fn turn(value: u32, by: u32) -> (result: u32)
    requires
        0 < by < 32,
    ensures
        result == turned(value, by),
{
    (value << by) | (value >> (32 - by))
}

/// A sum without its carry.
pub open spec fn wrapped_sum(a: u32, b: u32) -> u32 {
    if a + b > u32::MAX {
        (a + b - 0x1_0000_0000) as u32
    } else {
        (a + b) as u32
    }
}

/// The number of a connection: it is never zero.
pub open spec fn pid_of(process: u32, serial: u32) -> u32 {
    let sum = wrapped_sum(process, turned(serial, 7));
    if sum == 0 {
        1
    } else {
        sum
    }
}

/// The number of a connection, made of the process and a running number.
pub fn next_backend_pid(process: u32, serial: u32) -> (pid: u32)
    ensures
        pid == pid_of(process, serial),
        pid > 0,
{
    let sum = process.wrapping_add(turn(serial, 7));
    if sum == 0 {
        1
    } else {
        sum
    }
}

/// The secret that cancels a connection's queries.
pub fn backend_secret(pid: u32, next_serial: u32) -> (secret: u32)
    ensures
        secret == wrapped_sum(turned(pid, 13), next_serial),
{
    turn(pid, 13).wrapping_add(next_serial)
}

/// One connection that can be cancelled.
#[derive(Clone, Copy, Debug, PartialEq, Eq, Structural)]
pub struct CancelRegistration {
    pub pid: u32,
    pub secret: u32,
    /// Whether a query is running.
    pub active: bool,
    /// Whether that query is to stop.
    pub requested: bool,
}

/// The connections that can be cancelled.
pub struct CancelRegistry {
    pub entries: Vec<CancelRegistration>,
}

impl CancelRegistration {
    pub open spec fn has_key(self, pid: u32, secret: u32) -> bool {
        self.pid == pid && self.secret == secret
    }

    /// The connection once a query starts: an earlier request belongs to no
    /// query.
    pub open spec fn begun(self) -> CancelRegistration {
        CancelRegistration { active: true, requested: false, ..self }
    }

    /// The connection once a query ends.
    pub open spec fn ended(self) -> CancelRegistration {
        CancelRegistration { active: false, requested: false, ..self }
    }

    /// The connection once it is to be cancelled: only a running query is.
    pub open spec fn cancelled(self) -> CancelRegistration {
        CancelRegistration { requested: self.requested || self.active, ..self }
    }
}

/// What is done to a connection.
#[derive(Clone, Copy, Debug, PartialEq, Eq, Structural)]
pub enum CancelChange {
    Begin,
    End,
    Request,
}

/// A connection after a change.
pub open spec fn changed(entry: CancelRegistration, change: CancelChange) -> CancelRegistration {
    match change {
        CancelChange::Begin => entry.begun(),
        CancelChange::End => entry.ended(),
        CancelChange::Request => entry.cancelled(),
    }
}

/// The connections with a key changed, and the others as they were.
pub open spec fn all_changed(
    entries: Seq<CancelRegistration>,
    pid: u32,
    secret: u32,
    change: CancelChange,
) -> Seq<CancelRegistration> {
    entries.map_values(
        |e: CancelRegistration|
            if e.has_key(pid, secret) {
                changed(e, change)
            } else {
                e
            },
    )
}

/// The connections without those of a key.
pub open spec fn without_key(entries: Seq<CancelRegistration>, pid: u32, secret: u32) -> Seq<
    CancelRegistration,
>
    decreases entries.len(),
{
    if entries.len() == 0 {
        Seq::empty()
    } else {
        let before = without_key(entries.drop_last(), pid, secret);
        if entries.last().has_key(pid, secret) {
            before
        } else {
            before.push(entries.last())
        }
    }
}

impl CancelRegistry {
    pub fn new() -> (registry: CancelRegistry)
        ensures
            registry.entries@ == Seq::<CancelRegistration>::empty(),
    {
        CancelRegistry { entries: Vec::new() }
    }

    /// Takes a connection out.
    pub fn unregister(&mut self, pid: u32, secret: u32)
        ensures
            final(self).entries@ == without_key(old(self).entries@, pid, secret),
    {
        let ghost all = self.entries@;
        let mut kept: Vec<CancelRegistration> = Vec::new();
        let mut i: usize = 0;
        assert(all.subrange(0, 0) == Seq::<CancelRegistration>::empty());
        while i < self.entries.len()
            invariant
                all == self.entries@,
                i <= all.len(),
                kept@ == without_key(all.subrange(0, i as int), pid, secret),
            decreases all.len() - i,
        {
            let entry = self.entries[i];
            assert(all.subrange(0, i + 1).drop_last() == all.subrange(0, i as int));
            if !(entry.pid == pid && entry.secret == secret) {
                kept.push(entry);
            }
            i += 1;
        }
        assert(all.subrange(0, i as int) == all);
        self.entries = kept;
    }

    /// Puts a connection in, in place of one with the same key.
    pub fn register(&mut self, pid: u32, secret: u32)
        ensures
            final(self).entries@ == without_key(old(self).entries@, pid, secret).push(
                CancelRegistration { pid, secret, active: false, requested: false },
            ),
    {
        self.unregister(pid, secret);
        self.entries.push(CancelRegistration { pid, secret, active: false, requested: false });
    }

    /// Changes the connection with a key, if there is one.
    pub fn change(&mut self, pid: u32, secret: u32, change: CancelChange)
        ensures
            final(self).entries@ == all_changed(old(self).entries@, pid, secret, change),
    {
        let ghost all = self.entries@;
        let mut kept: Vec<CancelRegistration> = Vec::new();
        let mut i: usize = 0;
        while i < self.entries.len()
            invariant
                all == self.entries@,
                i <= all.len(),
                kept@.len() == i,
                forall|k: int|
                    0 <= k < i ==> #[trigger] kept@[k] == all_changed(all, pid, secret, change)[k],
            decreases all.len() - i,
        {
            let e = self.entries[i];
            let next = if e.pid == pid && e.secret == secret {
                match change {
                    CancelChange::Begin => CancelRegistration {
                        pid,
                        secret,
                        active: true,
                        requested: false,
                    },
                    CancelChange::End => CancelRegistration {
                        pid,
                        secret,
                        active: false,
                        requested: false,
                    },
                    CancelChange::Request => CancelRegistration {
                        pid,
                        secret,
                        active: e.active,
                        requested: e.requested || e.active,
                    },
                }
            } else {
                e
            };
            kept.push(next);
            i += 1;
        }
        self.entries = kept;
        assert(self.entries@ =~= all_changed(all, pid, secret, change));
    }

    /// Whether the query of a connection is to stop.
    pub fn is_cancelled(&self, pid: u32, secret: u32) -> (cancelled: bool)
        ensures
            cancelled == exists|i: int|
                0 <= i < self.entries@.len() && (#[trigger] self.entries@[i]).has_key(pid, secret)
                    && self.entries@[i].requested,
    {
        let mut i: usize = 0;
        while i < self.entries.len()
            invariant
                i <= self.entries@.len(),
                forall|k: int|
                    0 <= k < i ==> !((#[trigger] self.entries@[k]).has_key(pid, secret)
                        && self.entries@[k].requested),
            decreases self.entries@.len() - i,
        {
            let e = self.entries[i];
            if e.pid == pid && e.secret == secret && e.requested {
                assert(self.entries@[i as int].has_key(pid, secret));
                return true;
            }
            i += 1;
        }
        false
    }
}

/// A request that comes while no query runs stops no query, neither now nor
/// later.
pub proof fn idle_requests_are_forgotten(entry: CancelRegistration)
    requires
        !entry.active,
    ensures
        changed(changed(entry, CancelChange::Request), CancelChange::Begin) == changed(
            entry,
            CancelChange::Begin,
        ),
        !changed(changed(entry, CancelChange::Request), CancelChange::Begin).requested,
        changed(entry, CancelChange::Request) == entry,
{
    assert(changed(entry, CancelChange::Request) == (CancelRegistration {
        requested: entry.requested,
        ..entry
    }));
}

/// A request that comes while a query runs stops that query and no later one.
pub proof fn running_queries_are_cancelled(entry: CancelRegistration)
    ensures
        changed(changed(entry, CancelChange::Begin), CancelChange::Request).requested,
        !changed(
            changed(changed(entry, CancelChange::Begin), CancelChange::Request),
            CancelChange::End,
        ).requested,
{
}

// ---------------------------------------------------------------------------
// Idle transactions
// ---------------------------------------------------------------------------

/// When an idle transaction is over, in nanoseconds of a clock that only grows.
#[derive(Clone, Copy, Debug, PartialEq, Eq, Structural)]
pub struct IdleTimer {
    pub deadline: Option<u128>,
}

/// What is to be done before the next read.
#[derive(Clone, Copy, Debug, PartialEq, Eq, Structural)]
pub enum IdleStep {
    /// Read without a time limit; `true` where an earlier one is to be lifted.
    Unlimited { lift: bool },
    /// Read for at most so many nanoseconds.
    Wait(u128),
    /// The time is over.
    Expired,
}

/// The deadline of a transaction that idles from now on; where the clock cannot
/// count that far, now.
pub open spec fn deadline_from(now: u128, timeout_ms: u64) -> u128 {
    if now + timeout_ms * 1_000_000 <= u128::MAX {
        (now + timeout_ms * 1_000_000) as u128
    } else {
        now
    }
}

/// What waiting for a deadline means.
pub open spec fn wait_until(deadline: u128, now: u128) -> IdleStep {
    if deadline <= now {
        IdleStep::Expired
    } else {
        IdleStep::Wait((deadline - now) as u128)
    }
}

impl IdleTimer {
    pub fn new() -> (timer: IdleTimer)
        ensures
            timer.deadline is None,
    {
        IdleTimer { deadline: None }
    }

    /// Lifts the deadline; `true` where there was one.
    pub fn clear(&mut self) -> (lifted: bool)
        ensures
            lifted == (old(self).deadline is Some),
            final(self).deadline is None,
    {
        let lifted = self.deadline.is_some();
        self.deadline = None;
        lifted
    }

    /// Sets the deadline before a message is read: a transaction that is open
    /// may idle for so long from the first time on; outside a transaction, or
    /// where the limit is zero, there is none.
    pub fn arm(&mut self, status: TransactionStatus, timeout_ms: u64, now: u128) -> (step: IdleStep)
        ensures
            status == TransactionStatus::Idle || timeout_ms == 0 ==> step == (IdleStep::Unlimited {
                lift: old(self).deadline is Some,
            }) && final(self).deadline is None,
            status != TransactionStatus::Idle && timeout_ms != 0 ==> ({
                let deadline = match old(self).deadline {
                    Some(d) => d,
                    None => deadline_from(now, timeout_ms),
                };
                final(self).deadline == Some(deadline) && step == wait_until(deadline, now)
            }),
    {
        let idle = match status {
            TransactionStatus::Idle => true,
            _ => false,
        };
        if idle || timeout_ms == 0 {
            return IdleStep::Unlimited { lift: self.clear() };
        }
        let span: u128 = timeout_ms as u128 * 1_000_000;
        let deadline = match self.deadline {
            Some(deadline) => deadline,
            None => if span <= u128::MAX - now {
                now + span
            } else {
                now
            },
        };
        self.deadline = Some(deadline);
        if deadline <= now {
            IdleStep::Expired
        } else {
            IdleStep::Wait(deadline - now)
        }
    }

    /// What is to be done before another part of a message is read. A client
    /// that sends a message bit by bit gains no time by it.
    pub fn before_read(&self, now: u128) -> (step: IdleStep)
        ensures
            step == match self.deadline {
                Some(deadline) => wait_until(deadline, now),
                None => IdleStep::Unlimited { lift: false },
            },
    {
        match self.deadline {
            Some(deadline) => if deadline <= now {
                IdleStep::Expired
            } else {
                IdleStep::Wait(deadline - now)
            },
            None => IdleStep::Unlimited { lift: false },
        }
    }

    /// Whether a read that ran out of time ends the connection.
    pub fn timed_out(&self) -> (fatal: bool)
        ensures
            fatal == (self.deadline is Some),
    {
        self.deadline.is_some()
    }
}

/// Reading a message in parts never moves the deadline that reading its first
/// part had.
pub proof fn partial_reads_gain_no_time(deadline: u128, early: u128, late: u128)
    requires
        early <= late,
    ensures
        wait_until(deadline, late) matches IdleStep::Wait(left) ==> late + left == deadline,
        wait_until(deadline, early) == IdleStep::Expired ==> wait_until(deadline, late)
            == IdleStep::Expired,
{
}

/// The message that ends a connection whose transaction idled for too long.
pub fn fatal_idle_transaction_timeout() -> (message: Message)
    ensures
        message@ == error_view(
            "FATAL"@,
            crate::error::sql_error(
                "25P03"@,
                "terminating connection due to idle-in-transaction timeout"@,
            ),
        ),
{
    error_with_severity(
        "FATAL",
        &SqlError::new("25P03", "terminating connection due to idle-in-transaction timeout"),
    )
}

// ---------------------------------------------------------------------------
// The socket's path
// ---------------------------------------------------------------------------

/// Which file stands at a path.
#[derive(Clone, Copy, Debug, PartialEq, Eq, Structural)]
pub struct UnixSocketIdentity {
    pub dev: u64,
    pub ino: u64,
}

/// What stands at the path of a socket.
#[derive(Clone, Copy, Debug, PartialEq, Eq, Structural)]
pub enum SocketPath {
    Missing,
    /// Something that is no socket, or a symbolic link.
    Other,
    /// A socket, and whether someone answers there.
    Socket { identity: UnixSocketIdentity, serving: bool },
}

/// What is done to the path before a socket is bound there.
#[derive(Clone, Copy, Debug, PartialEq, Eq, Structural)]
pub enum PathStep {
    Bind,
    RemoveAndBind,
    /// Something stands there that must not be replaced.
    RefuseOther,
    /// Someone serves there.
    RefuseServing,
}

/// Decides what is done to a path before a socket is bound there: only a socket
/// where no one answers is replaced.
pub fn prepare_unix_socket_path(found: SocketPath) -> (step: PathStep)
    ensures
        step == match found {
            SocketPath::Missing => PathStep::Bind,
            SocketPath::Other => PathStep::RefuseOther,
            SocketPath::Socket { serving, .. } => if serving {
                PathStep::RefuseServing
            } else {
                PathStep::RemoveAndBind
            },
        },
{
    match found {
        SocketPath::Missing => PathStep::Bind,
        SocketPath::Other => PathStep::RefuseOther,
        SocketPath::Socket { serving, .. } => if serving {
            PathStep::RefuseServing
        } else {
            PathStep::RemoveAndBind
        },
    }
}

impl PathStep {
    /// The text of a refusal.
    pub fn refusal(&self) -> (text: Option<&'static str>)
        ensures
            match self {
                PathStep::RefuseOther => text matches Some(t) && t@
                    == "refusing to replace a non-socket Unix path"@,
                PathStep::RefuseServing => text matches Some(t) && t@
                    == "Unix socket is already serving"@,
                _ => text is None,
            },
    {
        match self {
            PathStep::RefuseOther => Some("refusing to replace a non-socket Unix path"),
            PathStep::RefuseServing => Some("Unix socket is already serving"),
            _ => None,
        }
    }
}

/// Whether a path is removed when a server stops: only where its own socket
/// still stands there and no one answers.
pub fn remove_owned_unix_socket(found: SocketPath, own: Option<UnixSocketIdentity>) -> (remove: bool)
    ensures
        remove == (found matches SocketPath::Socket { identity, serving } && own == Some(identity)
            && !serving),
{
    match found {
        SocketPath::Socket { identity, serving } => match own {
            Some(own) => own.dev == identity.dev && own.ino == identity.ino && !serving,
            None => false,
        },
        _ => false,
    }
}

// ---------------------------------------------------------------------------
// Stopping
// ---------------------------------------------------------------------------

/// What a stopping server does next.
#[derive(Clone, Copy, Debug, PartialEq, Eq, Structural)]
pub enum DrainStep {
    /// Wait for the sessions that are left.
    Wait,
    /// Close the sessions that are left.
    CloseAll,
    /// No session is left.
    Done,
}

/// Decides what a stopping server does next: sessions may finish until the
/// deadline, and are closed then.
pub fn drain_step(active: usize, now: u128, deadline: u128) -> (step: DrainStep)
    ensures
        step == (if active == 0 {
            DrainStep::Done
        } else if now < deadline {
            DrainStep::Wait
        } else {
            DrainStep::CloseAll
        }),
{
    if active == 0 {
        DrainStep::Done
    } else if now < deadline {
        DrainStep::Wait
    } else {
        DrainStep::CloseAll
    }
}

} // verus!
