//! The server's lifecycle decisions: running state, abort, connections, and pending
//! polling actions. The accept loop, timers and sockets drive these from outside.
use vstd::prelude::*;

verus! {

/// How often the server registers itself with a discovery server, when it has one.
pub const DISCOVERY_REGISTRATION_INTERVAL_MS: u64 = 300_000;
/// How often the abort poll runs.
pub const ABORT_POLL_INTERVAL_MS: u64 = 1_000;

/// The running state of the server.
#[derive(Debug, Clone, Copy, PartialEq, Eq, Structural)]
pub enum ServerStateType {
    Shutdown,
    Running,
    Failed,
}

/// What becomes of a polling action that is added.
#[derive(Debug, Clone, Copy, PartialEq, Eq, Structural)]
pub enum PollingStart {
    /// The server is not running yet: the action starts when it does.
    Queued,
    /// The server is running: start the action now.
    StartNow,
}

/// The connections that stay: those not reported terminated. A connection whose
/// status could not be read (`None`) stays.
pub open spec fn keep_live(conns: Seq<u64>, terminated: Seq<Option<bool>>) -> Seq<u64>
    decreases conns.len(),
{
    if conns.len() == 0 || terminated.len() < conns.len() {
        conns
    } else {
        let init = keep_live(conns.drop_last(), terminated.take(conns.len() - 1));
        if terminated[conns.len() - 1] == Some(true) {
            init
        } else {
            init.push(conns.last())
        }
    }
}

/// The lifecycle of one server: state, abort flag, live connections (by id) and the
/// polling actions (interval in ms, action id) waiting for the server to run.
pub struct Server {
    state: ServerStateType,
    abort: bool,
    start_time: i64,
    connections: Vec<u64>,
    pending_polling_actions: Vec<(u32, u64)>,
}

impl Server {
    pub closed spec fn state(&self) -> ServerStateType {
        self.state
    }

    pub closed spec fn aborting(&self) -> bool {
        self.abort
    }

    pub closed spec fn connection_ids(&self) -> Seq<u64> {
        self.connections@
    }

    pub closed spec fn pending(&self) -> Seq<(u32, u64)> {
        self.pending_polling_actions@
    }

    pub closed spec fn started_at(&self) -> i64 {
        self.start_time
    }

    /// A server that is shut down, not aborting, with no connections or actions.
    pub fn new() -> (r: Server)
        ensures
            r.state() == ServerStateType::Shutdown,
            !r.aborting(),
            r.connection_ids() == Seq::<u64>::empty(),
            r.pending() == Seq::<(u32, u64)>::empty(),
    {
        Server {
            state: ServerStateType::Shutdown,
            abort: false,
            start_time: 0,
            connections: Vec::new(),
            pending_polling_actions: Vec::new(),
        }
    }

    /// Puts the server into the running state at `now` and hands out the queued
    /// polling actions, in the order they were added, to be started.
    pub fn run(&mut self, now: i64) -> (r: Vec<(u32, u64)>)
        ensures
            final(self).state() == ServerStateType::Running,
            final(self).started_at() == now,
            r@ == old(self).pending(),
            final(self).pending() == Seq::<(u32, u64)>::empty(),
            final(self).aborting() == old(self).aborting(),
            final(self).connection_ids() == old(self).connection_ids(),
    {
        self.state = ServerStateType::Running;
        self.start_time = now;
        let mut pending: Vec<(u32, u64)> = Vec::new();
        std::mem::swap(&mut pending, &mut self.pending_polling_actions);
        pending
    }

    /// Marks the server stopped once its run has ended.
    pub fn stopped(&mut self)
        ensures
            final(self).state() == ServerStateType::Shutdown,
            final(self).aborting() == old(self).aborting(),
            final(self).connection_ids() == old(self).connection_ids(),
            final(self).pending() == old(self).pending(),
    {
        self.state = ServerStateType::Shutdown;
    }

    /// Asks the server to abort: it accepts no more connections and stops once the
    /// existing ones have closed.
    pub fn abort(&mut self)
        ensures
            final(self).aborting(),
            final(self).state() == old(self).state(),
            final(self).connection_ids() == old(self).connection_ids(),
            final(self).pending() == old(self).pending(),
    {
        self.abort = true;
    }

    pub fn is_abort(&self) -> (r: bool)
        ensures
            r == self.aborting(),
    {
        self.abort
    }

    /// Queues a polling action until the server runs, or tells to start it now.
    pub fn add_polling_action(&mut self, interval_ms: u32, action: u64) -> (r: PollingStart)
        ensures
            old(self).state() != ServerStateType::Running ==> r == PollingStart::Queued
                && final(self).pending() == old(self).pending().push((interval_ms, action)),
            old(self).state() == ServerStateType::Running ==> r == PollingStart::StartNow
                && final(self).pending() == old(self).pending(),
            final(self).state() == old(self).state(),
            final(self).aborting() == old(self).aborting(),
            final(self).connection_ids() == old(self).connection_ids(),
    {
        if self.state != ServerStateType::Running {
            self.pending_polling_actions.push((interval_ms, action));
            PollingStart::Queued
        } else {
            PollingStart::StartNow
        }
    }

    /// Registers an accepted connection, unless the server is aborting.
    pub fn handle_connection(&mut self, id: u64) -> (r: bool)
        ensures
            r == !old(self).aborting(),
            r ==> final(self).connection_ids() == old(self).connection_ids().push(id),
            !r ==> final(self).connection_ids() == old(self).connection_ids(),
            final(self).aborting() == old(self).aborting(),
            final(self).state() == old(self).state(),
            final(self).pending() == old(self).pending(),
    {
        if self.abort {
            false
        } else {
            self.connections.push(id);
            true
        }
    }

    /// Drops the connections reported terminated; `terminated[i]` is the status of
    /// connection `i`, `None` when it could not be read (such a connection stays).
    pub fn remove_dead_connections(&mut self, terminated: &Vec<Option<bool>>)
        requires
            terminated@.len() == old(self).connection_ids().len(),
        ensures
            final(self).connection_ids() == keep_live(old(self).connection_ids(), terminated@),
            final(self).aborting() == old(self).aborting(),
            final(self).state() == old(self).state(),
            final(self).pending() == old(self).pending(),
    {
        let ghost conns = self.connections@;
        let mut kept: Vec<u64> = Vec::new();
        let mut i: usize = 0;
        while i < self.connections.len()
            invariant
                self.connections@ == conns,
                terminated@.len() == conns.len(),
                i <= conns.len(),
                kept@ == keep_live(conns.take(i as int), terminated@.take(i as int)),
            decreases conns.len() - i,
        {
            proof {
                assert(conns.take(i + 1).drop_last() =~= conns.take(i as int));
                assert(terminated@.take(i + 1).take(i as int) =~= terminated@.take(i as int));
            }
            if terminated[i] != Some(true) {
                kept.push(self.connections[i]);
            }
            i = i + 1;
        }
        assert(conns.take(i as int) =~= conns);
        assert(terminated@.take(i as int) =~= terminated@);
        self.connections = kept;
    }

    /// One tick of the abort poll: when aborting, drop dead connections and say whether
    /// none is left, which stops the accept loop. Otherwise nothing changes.
    pub fn abort_poll(&mut self, terminated: &Vec<Option<bool>>) -> (stop: bool)
        requires
            terminated@.len() == old(self).connection_ids().len(),
        ensures
            old(self).aborting() ==> final(self).connection_ids() == keep_live(
                old(self).connection_ids(),
                terminated@,
            ) && stop == (final(self).connection_ids().len() == 0),
            !old(self).aborting() ==> !stop && final(self).connection_ids() == old(
                self,
            ).connection_ids(),
            final(self).aborting() == old(self).aborting(),
            final(self).state() == old(self).state(),
            final(self).pending() == old(self).pending(),
    {
        if self.abort {
            self.remove_dead_connections(terminated);
            self.connections.len() == 0
        } else {
            false
        }
    }

    /// The ids of the live connections, in the order they were accepted.
    pub fn connections(&self) -> (r: &Vec<u64>)
        ensures
            r@ == self.connection_ids(),
    {
        &self.connections
    }

    /// The number of live connections.
    pub fn connection_count(&self) -> (r: usize)
        ensures
            r == self.connection_ids().len(),
    {
        self.connections.len()
    }
}

/// The discovery registration period: every five minutes when a discovery server is
/// configured, never otherwise.
pub fn discovery_registration_interval(has_discovery_url: bool) -> (r: Option<u64>)
    ensures
        r == if has_discovery_url {
            Some(DISCOVERY_REGISTRATION_INTERVAL_MS)
        } else {
            None::<u64>
        },
{
    if has_discovery_url {
        Some(DISCOVERY_REGISTRATION_INTERVAL_MS)
    } else {
        None
    }
}

/// An aborting server stops exactly when every connection has been reported terminated.
pub proof fn lemma_abort_drains(conns: Seq<u64>, terminated: Seq<Option<bool>>)
    requires
        terminated.len() == conns.len(),
    ensures
        keep_live(conns, terminated).len() == 0 <==> forall|i: int|
            0 <= i < conns.len() ==> terminated[i] == Some(true),
    decreases conns.len(),
{
    if conns.len() > 0 {
        let n = conns.len() - 1;
        let t = terminated.take(n);
        lemma_abort_drains(conns.drop_last(), t);
        lemma_keep_live_len(conns.drop_last(), t);
        if forall|i: int| 0 <= i < conns.len() ==> terminated[i] == Some(true) {
            assert forall|i: int| 0 <= i < n implies t[i] == Some(true) by {
                assert(terminated[i] == Some(true));
            }
        }
        if keep_live(conns, terminated).len() == 0 {
            assert(terminated[n] == Some(true));
            assert forall|i: int| 0 <= i < conns.len() implies terminated[i] == Some(true) by {
                if i < n {
                    assert(t[i] == terminated[i]);
                }
            }
        }
    }
}

pub proof fn lemma_keep_live_len(conns: Seq<u64>, terminated: Seq<Option<bool>>)
    ensures
        keep_live(conns, terminated).len() <= conns.len(),
    decreases conns.len(),
{
    if conns.len() > 0 && terminated.len() >= conns.len() {
        lemma_keep_live_len(conns.drop_last(), terminated.take(conns.len() - 1));
    }
}

} // verus!
