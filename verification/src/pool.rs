use vstd::prelude::*;
use std::collections::VecDeque;
use crate::model::PoolView;
use crate::model::init;
use crate::model::keeps_config;
use crate::model::reuse_step;
use crate::model::dial_begin_step;
use crate::model::dial_success_step;
use crate::model::dial_failure_step;
use crate::model::return_step;

verus! {

/// The ways a session can fail, ordered by where in its life they strike.
#[derive(Debug, Clone, Copy, PartialEq, Eq, Structural)]
pub enum PoolError {
    /// The admission gate itself became unusable (never happens in the
    /// current design; kept so callers can match on a closed set).
    AdmissionFailure,
    /// The backend could not be reached when a new connection was dialed.
    DialFailure,
    /// Byte forwarding on an established session failed.
    ForwardingFailure,
}

/// A borrowed backend connection: the identifier of one pooled connection,
/// held until the handle is given back to the pool. After the return the
/// handle is empty and exposes nothing.
pub struct PooledConnection {
    connection: Option<usize>,
}

impl View for PooledConnection {
    type V = Option<usize>;

    closed spec fn view(&self) -> Option<usize> {
        self.connection
    }
}

impl PooledConnection {
    /// The identifier of the held connection, or nothing if the connection
    /// has already gone back to the pool.
    pub fn get_ref(&self) -> (r: Option<usize>)
        ensures
            r == self@,
    {
        self.connection
    }
}

/// What one acquisition attempt decided. The caller drives the rest:
/// on `Dial` it must dial the backend and then report the outcome with
/// `dial_succeeded` or `dial_failed`; on `Wait` it must wait for some
/// release and try again.
pub enum AcquireAction {
    /// An idle connection was available; here is its handle.
    Reuse(PooledConnection),
    /// A permit was taken but the idle store was empty: dial the backend.
    Dial,
    /// The pool is at capacity: wait for a connection to come home.
    Wait,
}

/// The connection pool: an admission gate of `max_size` permits fused with
/// a first-in-first-out idle store. The `borrowed` set and the `pending`
/// count are ghost bookkeeping that the contracts speak of.
pub struct ConnectionPool {
    max_size: usize,
    permits: usize,
    idle: VecDeque<usize>,
    next_id: usize,
    pg_host: String,
    pg_port: u16,
    pending: Ghost<nat>,
    borrowed: Ghost<Set<usize>>,
}

impl View for ConnectionPool {
    type V = PoolView;

    closed spec fn view(&self) -> PoolView {
        PoolView {
            max_size: self.max_size as int,
            permits: self.permits as int,
            pending: self.pending@ as int,
            idle: self.idle@,
            borrowed: self.borrowed@,
            next_id: self.next_id as int,
            host: self.pg_host@,
            port: self.pg_port,
        }
    }
}

impl ConnectionPool {
    /// A fresh pool: all permits available, no idle connections, nothing
    /// borrowed, no dial in flight.
    pub fn new(max_size: usize, pg_host: String, pg_port: u16) -> (pool: ConnectionPool)
        requires
            max_size >= 1,
        ensures
            pool@.inv(),
            init(pool@),
            pool@.max_size == max_size as int,
            pool@.permits == max_size as int,
            pool@.pending == 0,
            pool@.idle == Seq::<usize>::empty(),
            pool@.borrowed == Set::<usize>::empty(),
            pool@.next_id == 0,
            pool@.host == pg_host@,
            pool@.port == pg_port,
    {
        ConnectionPool {
            max_size,
            permits: max_size,
            idle: VecDeque::with_capacity(max_size),
            next_id: 0,
            pg_host,
            pg_port,
            pending: Ghost(0),
            borrowed: Ghost(Set::empty()),
        }
    }

    /// One acquisition attempt. It blocks on nothing: with no permit left
    /// it says `Wait` and changes nothing; otherwise it takes a
    /// permit and either hands out the oldest idle connection or, only if
    /// the idle store is empty, asks the caller to dial.
    pub fn get_connection(&mut self) -> (r: AcquireAction)
        requires
            old(self)@.inv(),
        ensures
            final(self)@.inv(),
            (r is Wait) <==> old(self)@.permits == 0,
            (r is Wait) ==> final(self)@ == old(self)@,
            old(self)@.idle.len() > 0 ==> !(r is Dial),
            (old(self)@.permits > 0 && old(self)@.idle.len() > 0) ==> (r matches
            AcquireAction::Reuse(h) && h@ == Some(old(self)@.idle[0]) && reuse_step(
                old(self)@,
                final(self)@,
                old(self)@.idle[0],
            )),
            (old(self)@.permits > 0 && old(self)@.idle.len() == 0) ==> ((r is Dial)
                && dial_begin_step(old(self)@, final(self)@)),
    {
        if self.permits == 0 {
            return AcquireAction::Wait;
        }
        self.permits = self.permits - 1;
        match self.idle.pop_front() {
            Some(id) => {
                self.borrowed = Ghost(self.borrowed@.insert(id));
                AcquireAction::Reuse(PooledConnection { connection: Some(id) })
            },
            None => {
                self.pending = Ghost((self.pending@ + 1) as nat);
                AcquireAction::Dial
            },
        }
    }

    /// The caller's dial came back with a live connection. The pool mints
    /// an identifier no borrower or idle slot has ever held and lends it
    /// out, still under the permit taken when the dial began.
    pub fn dial_succeeded(&mut self) -> (h: PooledConnection)
        requires
            old(self)@.inv(),
            old(self)@.pending > 0,
        ensures
            final(self)@.inv(),
            (h@ matches Some(id) && dial_success_step(old(self)@, final(self)@, id)
                && !old(self)@.borrowed.contains(id) && !old(self)@.idle.contains(id)),
    {
        let id = self.next_id;
        self.next_id = self.next_id + 1;
        self.pending = Ghost((self.pending@ - 1) as nat);
        self.borrowed = Ghost(self.borrowed@.insert(id));
        proof {
            assert(!old(self)@.idle.contains(id));
        }
        PooledConnection { connection: Some(id) }
    }

    /// The caller's dial failed. The permit reserved for it is restored
    /// before the error is surfaced, so a failed dial never costs the pool
    /// capacity.
    pub fn dial_failed(&mut self) -> (e: PoolError)
        requires
            old(self)@.inv(),
            old(self)@.pending > 0,
        ensures
            final(self)@.inv(),
            dial_failure_step(old(self)@, final(self)@),
            e == PoolError::DialFailure,
    {
        self.permits = self.permits + 1;
        self.pending = Ghost((self.pending@ - 1) as nat);
        PoolError::DialFailure
    }

    /// A borrowed connection comes home: it joins the back of the idle
    /// queue, and only then is its permit released. The handle is left
    /// empty, so giving it back a second time changes nothing.
    pub fn return_connection(&mut self, handle: &mut PooledConnection)
        requires
            old(self)@.inv(),
            (old(handle)@ matches Some(id) ==> old(self)@.borrowed.contains(id)),
        ensures
            final(self)@.inv(),
            final(handle)@ is None,
            old(handle)@ is None ==> final(self)@ == old(self)@,
            (old(handle)@ matches Some(id) ==> return_step(old(self)@, final(self)@, id)),
    {
        let conn = handle.connection;
        handle.connection = None;
        match conn {
            Some(id) => {
                self.idle.push_back(id);
                self.permits = self.permits + 1;
                self.borrowed = Ghost(self.borrowed@.remove(id));
            },
            None => {},
        }
    }

    /// Number of admission permits currently available.
    pub fn available_permits(&self) -> (n: usize)
        ensures
            n as int == self@.permits,
    {
        self.permits
    }

    /// Number of idle connections waiting for reuse.
    pub fn idle_count(&self) -> (n: usize)
        ensures
            n as int == self@.idle.len(),
    {
        self.idle.len()
    }

    /// The capacity bound the pool was created with.
    pub fn max_size(&self) -> (n: usize)
        ensures
            n as int == self@.max_size,
    {
        self.max_size
    }
}

} // verus!
