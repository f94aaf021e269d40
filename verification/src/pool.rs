//! Which connection serves a request, and when a new one is opened.

use vstd::prelude::*;
use vstd::string::StringExecFns;

use crate::config::Config;
use crate::host_pool;
use crate::host_pool::{
    AcquireAction, ConnectionSender, HostPool, HostView, NegotiatedProtocol, OpenedConnection,
    PoolHandle, PoolHandleSender, PooledConnection, Probe,
};
use crate::text;
use crate::time::Duration;
use crate::types::{DownloadError, ErrorView};

verus! {

/// Maximum iterations in the acquire loop before giving up.
pub const MAX_ACQUIRE_ATTEMPTS: usize = 32;

/// Timeout for waiting on a notify signal before retrying.
pub fn notify_wait_timeout() -> (d: Duration)
    ensures
        d@ == 250_000_000,
{
    Duration::from_millis(250)
}

/// The connections of one host, with the host and port that they lead to.
#[derive(Debug)]
struct HostEntry<H2, H1> {
    host: String,
    port: u16,
    pool: HostPool<H2, H1>,
}

spec fn leads_to<H2, H1>(entry: HostEntry<H2, H1>, host: Seq<char>, port: u16) -> bool {
    entry.host@ == host && entry.port == port
}

/// The place of the first entry for a host, or the number of entries where there is none.
spec fn position<H2, H1>(entries: Seq<HostEntry<H2, H1>>, host: Seq<char>, port: u16) -> int
    decreases entries.len(),
{
    if entries.len() == 0 {
        0
    } else {
        let earlier = position(entries.drop_last(), host, port);
        if earlier < entries.len() - 1 || leads_to(entries.last(), host, port) {
            earlier
        } else {
            entries.len() as int
        }
    }
}

spec fn hosts_of<H2, H1>(entries: Seq<HostEntry<H2, H1>>) -> Map<(Seq<char>, u16), HostView<H2, H1>> {
    Map::new(
        |key: (Seq<char>, u16)| position(entries, key.0, key.1) < entries.len(),
        |key: (Seq<char>, u16)| entries[position(entries, key.0, key.1)].pool@,
    )
}

spec fn keys_unique<H2, H1>(entries: Seq<HostEntry<H2, H1>>) -> bool {
    forall|i: int, j: int|
        0 <= i < j < entries.len() ==> (#[trigger] entries[i]).host@ != (
        #[trigger] entries[j]).host@ || entries[i].port != entries[j].port
}

proof fn position_is<H2, H1>(
    entries: Seq<HostEntry<H2, H1>>,
    host: Seq<char>,
    port: u16,
    at: int,
)
    requires
        0 <= at <= entries.len(),
        forall|i: int| 0 <= i < at ==> !leads_to(#[trigger] entries[i], host, port),
        at < entries.len() ==> leads_to(entries[at], host, port),
    ensures
        position(entries, host, port) == at,
    decreases entries.len(),
{
    if entries.len() > 0 {
        let fewer = entries.drop_last();
        assert forall|i: int| 0 <= i < at && i < fewer.len() implies !leads_to(
            #[trigger] fewer[i],
            host,
            port,
        ) by {
            assert(!leads_to(entries[i], host, port));
        }
        if at < entries.len() {
            position_is(
                fewer,
                host,
                port,
                if at < fewer.len() {
                    at
                } else {
                    fewer.len() as int
                },
            );
        } else {
            position_is(fewer, host, port, fewer.len() as int);
            assert(!leads_to(entries[entries.len() - 1], host, port));
        }
    }
}

proof fn position_finds<H2, H1>(entries: Seq<HostEntry<H2, H1>>, host: Seq<char>, port: u16)
    ensures
        0 <= position(entries, host, port) <= entries.len(),
        position(entries, host, port) < entries.len() ==> leads_to(
            entries[position(entries, host, port)],
            host,
            port,
        ),
        forall|i: int|
            0 <= i < position(entries, host, port) ==> !leads_to(#[trigger] entries[i], host, port),
    decreases entries.len(),
{
    if entries.len() > 0 {
        position_finds(entries.drop_last(), host, port);
        let at = position(entries, host, port);
        assert forall|i: int| 0 <= i < at implies !leads_to(#[trigger] entries[i], host, port) by {
            if i < entries.len() - 1 {
                assert(entries.drop_last()[i] == entries[i]);
            }
        }
    }
}

/// Replacing the connections of a host.
proof fn hosts_after_set<H2, H1>(
    entries: Seq<HostEntry<H2, H1>>,
    at: int,
    after: Seq<HostEntry<H2, H1>>,
)
    requires
        0 <= at < entries.len(),
        keys_unique(entries),
        after.len() == entries.len(),
        forall|i: int| 0 <= i < entries.len() && i != at ==> after[i] == #[trigger] entries[i],
        after[at].host@ == entries[at].host@,
        after[at].port == entries[at].port,
    ensures
        keys_unique(after),
        hosts_of(after) == hosts_of(entries).insert(
            (entries[at].host@, entries[at].port),
            after[at].pool@,
        ),
{
    let own = (entries[at].host@, entries[at].port);
    assert forall|i: int, j: int| 0 <= i < j < after.len() implies (#[trigger] after[i]).host@ != (
    #[trigger] after[j]).host@ || after[i].port != after[j].port by {
        assert(entries[i].host@ == after[i].host@ && entries[j].host@ == after[j].host@);
    }
    assert forall|key: (Seq<char>, u16)| position(after, key.0, key.1) == position(
        entries,
        key.0,
        key.1,
    ) by {
        position_finds(entries, key.0, key.1);
        let found = position(entries, key.0, key.1);
        assert forall|i: int| 0 <= i < found implies !leads_to(
            #[trigger] after[i],
            key.0,
            key.1,
        ) by {
            assert(!leads_to(entries[i], key.0, key.1));
        }
        position_is(after, key.0, key.1, found);
    }
    assert forall|i: int| 0 <= i < at implies !leads_to(#[trigger] entries[i], own.0, own.1) by {
        assert(entries[i].host@ != entries[at].host@ || entries[i].port != entries[at].port);
    }
    position_is(entries, own.0, own.1, at);
    assert forall|key: (Seq<char>, u16)| hosts_of(entries).insert(
        own,
        after[at].pool@,
    ).contains_key(key) implies #[trigger] hosts_of(after)[key] == hosts_of(entries).insert(
        own,
        after[at].pool@,
    )[key] by {
        position_finds(entries, key.0, key.1);
    }
    assert(hosts_of(after) =~= hosts_of(entries).insert(own, after[at].pool@));
}

/// Adding a host that is not there yet.
proof fn hosts_after_push<H2, H1>(entries: Seq<HostEntry<H2, H1>>, entry: HostEntry<H2, H1>)
    requires
        keys_unique(entries),
        position(entries, entry.host@, entry.port) == entries.len(),
    ensures
        keys_unique(entries.push(entry)),
        hosts_of(entries.push(entry)) == hosts_of(entries).insert(
            (entry.host@, entry.port),
            entry.pool@,
        ),
{
    let after = entries.push(entry);
    position_finds(entries, entry.host@, entry.port);
    assert forall|i: int, j: int| 0 <= i < j < after.len() implies (#[trigger] after[i]).host@ != (
    #[trigger] after[j]).host@ || after[i].port != after[j].port by {
        assert(!leads_to(entries[i], entry.host@, entry.port));
    }
    assert(after.drop_last() =~= entries);
    assert forall|key: (Seq<char>, u16)| hosts_of(after).contains_key(key) == hosts_of(
        entries,
    ).insert((entry.host@, entry.port), entry.pool@).contains_key(key) by {
        position_finds(entries, key.0, key.1);
    }
    assert forall|key: (Seq<char>, u16)| hosts_of(after).contains_key(key) implies #[trigger] hosts_of(
        after,
    )[key] == hosts_of(entries).insert((entry.host@, entry.port), entry.pool@)[key] by {
        position_finds(entries, key.0, key.1);
        position_finds(after, key.0, key.1);
    }
    assert(hosts_of(after) =~= hosts_of(entries).insert((entry.host@, entry.port), entry.pool@));
}

/// Where a host stands once the entry at `at` is removed.
proof fn position_after_remove<H2, H1>(
    entries: Seq<HostEntry<H2, H1>>,
    at: int,
    host: Seq<char>,
    port: u16,
)
    requires
        0 <= at < entries.len(),
        keys_unique(entries),
    ensures
        ({
            let after = entries.remove(at);
            let before = position(entries, host, port);
            let place = position(after, host, port);
            &&& 0 <= before <= entries.len()
            &&& 0 <= place <= after.len()
            &&& leads_to(entries[at], host, port) || before == entries.len() ==> place
                == after.len()
            &&& !leads_to(entries[at], host, port) && before < entries.len() ==> place
                < after.len() && after[place] == entries[before]
        }),
{
    let after = entries.remove(at);
    position_finds(entries, host, port);
    let before = position(entries, host, port);
    let own = leads_to(entries[at], host, port);
    let place = if own || before == entries.len() {
        after.len() as int
    } else if before < at {
        before
    } else {
        before - 1
    };
    assert forall|i: int| 0 <= i < place implies !leads_to(#[trigger] after[i], host, port) by {
        let k = if i < at {
            i
        } else {
            i + 1
        };
        assert(after[i] == entries[k]);
        if own {
            if k < at {
                assert(entries[k].host@ != entries[at].host@ || entries[k].port
                    != entries[at].port);
            } else {
                assert(entries[at].host@ != entries[k].host@ || entries[at].port
                    != entries[k].port);
            }
        } else if k < before {
            assert(!leads_to(entries[k], host, port));
        }
    }
    position_is(after, host, port, place);
}

/// Removing a host.
proof fn hosts_after_remove<H2, H1>(entries: Seq<HostEntry<H2, H1>>, at: int)
    requires
        0 <= at < entries.len(),
        keys_unique(entries),
    ensures
        keys_unique(entries.remove(at)),
        hosts_of(entries.remove(at)) == hosts_of(entries).remove(
            (entries[at].host@, entries[at].port),
        ),
{
    let after = entries.remove(at);
    let own = (entries[at].host@, entries[at].port);
    assert forall|i: int, j: int| 0 <= i < j < after.len() implies (#[trigger] after[i]).host@ != (
    #[trigger] after[j]).host@ || after[i].port != after[j].port by {
        let k = if i < at {
            i
        } else {
            i + 1
        };
        let l = if j < at {
            j
        } else {
            j + 1
        };
        assert(after[i] == entries[k] && after[j] == entries[l]);
    }
    assert forall|key: (Seq<char>, u16)| hosts_of(after).contains_key(key) == hosts_of(
        entries,
    ).remove(own).contains_key(key) by {
        position_after_remove(entries, at, key.0, key.1);
    }
    assert forall|key: (Seq<char>, u16)| hosts_of(after).contains_key(key) implies #[trigger] hosts_of(
        after,
    )[key] == hosts_of(entries).remove(own)[key] by {
        position_after_remove(entries, at, key.0, key.1);
    }
    assert(hosts_of(after) =~= hosts_of(entries).remove(own));
}

/// The connection pool, shared across all download tasks.
#[derive(Debug)]
pub struct ConnectionPool<H2, H1> {
    entries: Vec<HostEntry<H2, H1>>,
    config: Config,
    plain_mode: bool,
}

/// A pool: the connections under each host and port, and how it was set up.
pub struct PoolView<H2, H1> {
    pub hosts: Map<(Seq<char>, u16), HostView<H2, H1>>,
    pub config: Config,
    pub plain_mode: bool,
}

impl<H2, H1> PoolView<H2, H1> {
    /// How many connections there may be to one host.
    pub open spec fn limit(self) -> nat {
        self.config.connections_per_host as nat
    }

    /// Every host keeps to the limit, and its connections are told apart by their IDs.
    pub open spec fn wf(self) -> bool {
        forall|key: (Seq<char>, u16)|
            self.hosts.contains_key(key) ==> (#[trigger] self.hosts[key]).wf(self.limit())
    }

    /// The pool with other connections under one host and port.
    pub open spec fn with_host(self, key: (Seq<char>, u16), host: HostView<H2, H1>) -> Self {
        PoolView { hosts: self.hosts.insert(key, host), ..self }
    }

    /// The pool without one host and port.
    pub open spec fn without_host(self, key: (Seq<char>, u16)) -> Self {
        PoolView { hosts: self.hosts.remove(key), ..self }
    }
}

impl<H2, H1> View for ConnectionPool<H2, H1> {
    type V = PoolView<H2, H1>;

    closed spec fn view(&self) -> PoolView<H2, H1> {
        PoolView {
            hosts: hosts_of(self.entries@),
            config: self.config,
            plain_mode: self.plain_mode,
        }
    }
}

/// A host to which the first connection is being opened. Its protocol is not known yet.
pub open spec fn first_opening<H2, H1>() -> HostView<H2, H1> {
    HostView {
        protocol: NegotiatedProtocol::Http2,
        connections: Seq::empty(),
        opening_count: 1,
        next_id: 0,
    }
}

/// What is done for a request to a host, and what that makes of the pool.
pub open spec fn acted<H2: Clone, H1>(
    pool: PoolView<H2, H1>,
    key: (Seq<char>, u16),
    probes: Seq<Probe>,
    after: PoolView<H2, H1>,
    action: AcquireAction<H2, H1>,
) -> bool {
    if pool.hosts.contains_key(key) {
        let host = pool.hosts[key];
        &&& after == pool.with_host(key, after.hosts[key])
        &&& match host.protocol {
            NegotiatedProtocol::Http2 => host_pool::h2_acted(
                host,
                pool.limit(),
                probes,
                after.hosts[key],
                action,
            ),
            NegotiatedProtocol::Http1 => host_pool::h1_acted(host, pool.limit(), after.hosts[key], action),
        }
    } else {
        &&& after == pool.with_host(key, first_opening())
        &&& action == AcquireAction::<H2, H1>::OpenNew { is_first: true }
    }
}

/// Whether somebody who waits for a connection to a host is woken once one is free, or gone.
pub open spec fn wakes_waiter<H2, H1>(pool: PoolView<H2, H1>, key: (Seq<char>, u16)) -> bool {
    pool.hosts.contains_key(key)
}

/// The pool after a request on one of its connections has come to an end.
pub open spec fn request_finished<H2, H1>(
    pool: PoolView<H2, H1>,
    key: (Seq<char>, u16),
    id: usize,
    sender: PoolHandleSender<H2, H1>,
    usable: bool,
) -> PoolView<H2, H1> {
    if pool.hosts.contains_key(key) {
        pool.with_host(key, host_pool::finished(pool.hosts[key], id, sender, usable))
    } else {
        pool
    }
}

/// What comes of an attempt to acquire a connection.
#[derive(Debug)]
pub enum AcquireStep<H2, H1> {
    /// A connection to use.
    Acquired(PoolHandle<H2, H1>),
    /// A connection is to be opened.
    Open { is_first: bool },
    /// Wait to be notified, but no longer than this, and try again.
    Wait(Duration),
    /// Too many attempts were made.
    GiveUp(DownloadError),
}

/// What comes of opening a connection, what that makes of the pool, and whether somebody
/// who waits is notified.
pub open spec fn open_ended<H2: Clone, H1>(
    pool: PoolView<H2, H1>,
    key: (Seq<char>, u16),
    is_first: bool,
    outcome: Result<OpenedConnection<H2, H1>, DownloadError>,
    after: PoolView<H2, H1>,
    result: Result<PoolHandle<H2, H1>, DownloadError>,
    notify: bool,
) -> bool {
    match outcome {
        Ok(opened) => if pool.hosts.contains_key(key) {
            let host = pool.hosts[key];
            &&& after == pool.with_host(key, host_pool::with_connection(host, opened, is_first))
            &&& result matches Ok(handle)
            &&& handle.connection_id == host.next_id
            &&& host_pool::handed_out(opened, handle.sender)
            &&& !notify
        } else {
            &&& after == pool
            &&& result matches Err(e)
            &&& e@ == ErrorView::ConnectionFailed(
                "pool entry for "@ + key.0 + ":"@ + text::decimal_digits(key.1 as nat)
                    + " disappeared during connection"@,
            )
            &&& !notify
        },
        Err(e) => {
            &&& result == Err::<PoolHandle<H2, H1>, DownloadError>(e)
            &&& if pool.hosts.contains_key(key) {
                let host = pool.hosts[key];
                let left = HostView { opening_count: (host.opening_count - 1) as nat, ..host };
                if left.total_count() == 0 {
                    after == pool.without_host(key) && !notify
                } else {
                    after == pool.with_host(key, left) && notify
                }
            } else {
                after == pool && !notify
            }
        },
    }
}

impl<H2, H1> ConnectionPool<H2, H1> {
    /// No host and port is kept twice.
    pub closed spec fn indexed(&self) -> bool {
        keys_unique(self.entries@)
    }

    /// The pool is consistent.
    pub open spec fn wf(&self) -> bool {
        self.indexed() && self@.wf()
    }

    /// Create a new connection pool.
    pub fn new(config: Config) -> (pool: Self)
        ensures
            pool.wf(),
            pool@ == (PoolView::<H2, H1> { hosts: Map::empty(), config, plain_mode: false }),
    {
        let pool = ConnectionPool { entries: Vec::new(), config, plain_mode: false };
        assert(pool@.hosts =~= Map::empty());
        pool
    }

    /// Create a connection pool that uses plain TCP (no TLS). For testing only.
    pub fn new_plain(config: Config) -> (pool: Self)
        ensures
            pool.wf(),
            pool@ == (PoolView::<H2, H1> { hosts: Map::empty(), config, plain_mode: true }),
    {
        let pool = ConnectionPool { entries: Vec::new(), config, plain_mode: true };
        assert(pool@.hosts =~= Map::empty());
        pool
    }

    /// How the pool was set up.
    pub fn config(&self) -> (config: &Config)
        ensures
            *config == self@.config,
    {
        &self.config
    }

    /// Whether connections are opened without TLS.
    pub fn plain_mode(&self) -> (plain: bool)
        ensures
            plain == self@.plain_mode,
    {
        self.plain_mode
    }

    fn find(&self, host: &str, port: u16) -> (at: Option<usize>)
        requires
            self.indexed(),
        ensures
            match at {
                Some(i) => {
                    &&& i < self.entries@.len()
                    &&& leads_to(self.entries@[i as int], host@, port)
                    &&& self@.hosts.contains_key((host@, port))
                    &&& self@.hosts[(host@, port)] == self.entries@[i as int].pool@
                },
                None => {
                    &&& !self@.hosts.contains_key((host@, port))
                    &&& position(self.entries@, host@, port) == self.entries@.len()
                },
            },
    {
        let mut i: usize = 0;
        while i < self.entries.len()
            invariant
                i <= self.entries@.len(),
                forall|j: int| 0 <= j < i ==> !leads_to(#[trigger] self.entries@[j], host@, port),
            decreases self.entries@.len() - i,
        {
            if self.entries[i].port == port && text::equal(self.entries[i].host.as_str(), host) {
                proof {
                    position_is(self.entries@, host@, port, i as int);
                }
                return Some(i);
            }
            i += 1;
        }
        proof {
            position_is(self.entries@, host@, port, i as int);
        }
        None
    }

    /// The connections under a host and port.
    pub fn host_pool(&self, host: &str, port: u16) -> (found: Option<&HostPool<H2, H1>>)
        requires
            self.wf(),
        ensures
            match found {
                Some(pool) => self@.hosts.contains_key((host@, port)) && pool@ == self@.hosts[(
                    host@,
                    port,
                )],
                None => !self@.hosts.contains_key((host@, port)),
            },
    {
        match self.find(host, port) {
            Some(i) => Some(&self.entries[i].pool),
            None => None,
        }
    }

    /// Notify the pool that an HTTP/2 stream has completed. Returns whether somebody who
    /// waits for a connection to this host is to be notified.
    pub fn notify_h2_complete(&self, host: &str, port: u16) -> (notify: bool)
        requires
            self.wf(),
        ensures
            notify == wakes_waiter(self@, (host@, port)),
    {
        self.find(host, port).is_some()
    }
}

impl<H2, H1> ConnectionPool<H2, H1> {
    /// Return an HTTP/1.1 sender to the pool after use. Returns whether somebody who waits
    /// for a connection to this host is to be notified.
    pub fn return_h1_connection(
        &mut self,
        host: &str,
        port: u16,
        connection_id: usize,
        sender: H1,
    ) -> (notify: bool)
        requires
            old(self).wf(),
        ensures
            final(self).wf(),
            notify == wakes_waiter(old(self)@, (host@, port)),
            final(self)@ == if notify {
                old(self)@.with_host(
                    (host@, port),
                    host_pool::with_returned(old(self)@.hosts[(host@, port)], connection_id, sender),
                )
            } else {
                old(self)@
            },
    {
        let ghost before = self.entries@;
        let at = match self.find(host, port) {
            Some(at) => at,
            None => {
                return false;
            },
        };
        let ghost own = before[at as int].pool@;
        let ghost returned = host_pool::with_returned(own, connection_id, sender);
        let mut i: usize = 0;
        let count = self.entries[at].pool.connections.len();
        while i < count
            invariant
                self.entries@ == before,
                at < before.len(),
                own == before[at as int].pool@,
                count == own.connections.len(),
                i <= count,
                forall|j: int| 0 <= j < i ==> (#[trigger] own.connections[j]).id != connection_id,
            ensures
                self.entries@ == before,
                i <= count,
                i < count ==> own.connections[i as int].id == connection_id,
                forall|j: int| 0 <= j < i ==> (#[trigger] own.connections[j]).id != connection_id,
            decreases count - i,
        {
            if self.entries[at].pool.connections[i].id == connection_id {
                break;
            }
            i += 1;
        }
        if i < count {
            if let ConnectionSender::H1(opt) = &mut self.entries[at].pool.connections[i].sender {
                *opt = Some(sender);
            }
        }
        proof {
            assert(own.wf(old(self)@.limit()));
            assert(self.entries@[at as int].pool.connections@ =~= returned.connections);
            hosts_after_set(before, at as int, self.entries@);
            assert(returned.wf(old(self)@.limit()));
        }
        true
    }

    /// Remove a dead connection. Returns whether somebody who waits for a connection to
    /// this host is to be notified.
    pub fn remove_dead_connection(&mut self, host: &str, port: u16, connection_id: usize) -> (notify:
        bool)
        requires
            old(self).wf(),
        ensures
            final(self).wf(),
            notify == wakes_waiter(old(self)@, (host@, port)),
            final(self)@ == if notify {
                let own = old(self)@.hosts[(host@, port)];
                old(self)@.with_host(
                    (host@, port),
                    HostView { connections: host_pool::without_id(own.connections, connection_id), ..own },
                )
            } else {
                old(self)@
            },
    {
        let ghost before = self.entries@;
        let at = match self.find(host, port) {
            Some(at) => at,
            None => {
                return false;
            },
        };
        let ghost own = before[at as int].pool@;
        let ghost limit = self@.limit();
        self.entries[at].pool.remove_id(connection_id);
        proof {
            assert(own.wf(limit));
            host_pool::without_id_wf(own, limit, connection_id);
            hosts_after_set(before, at as int, self.entries@);
        }
        true
    }

    /// Manage connection lifecycle after a request completes: usable connections are
    /// returned to the pool, dead ones removed. Returns whether somebody who waits for a
    /// connection to this host is to be notified.
    pub fn finish_connection(
        &mut self,
        host: &str,
        port: u16,
        connection_id: usize,
        sender: PoolHandleSender<H2, H1>,
        usable: bool,
    ) -> (notify: bool)
        requires
            old(self).wf(),
        ensures
            final(self).wf(),
            notify == wakes_waiter(old(self)@, (host@, port)),
            final(self)@ == request_finished(
                old(self)@,
                (host@, port),
                connection_id,
                sender,
                usable,
            ),
    {
        if !usable {
            return self.remove_dead_connection(host, port, connection_id);
        }
        match sender {
            PoolHandleSender::H1(h1) => self.return_h1_connection(host, port, connection_id, h1),
            PoolHandleSender::H2(_) => {
                let notify = self.notify_h2_complete(host, port);
                assert(notify ==> self@.hosts =~= self@.hosts.insert(
                    (host@, port),
                    self@.hosts[(host@, port)],
                ));
                notify
            },
        }
    }
}

/// Whether each connection of a known host has been asked how it is.
pub open spec fn probed<H2, H1>(
    pool: PoolView<H2, H1>,
    key: (Seq<char>, u16),
    probes: Seq<Probe>,
) -> bool {
    pool.hosts.contains_key(key) ==> probes.len() == pool.hosts[key].connections.len()
}

/// Whether a connection to this host is being opened, where the host is known.
pub open spec fn is_opening<H2, H1>(pool: PoolView<H2, H1>, key: (Seq<char>, u16)) -> bool {
    pool.hosts.contains_key(key) ==> pool.hosts[key].opening_count > 0
}

/// Whether an ID is left for one more connection to this host, where the host is known.
pub open spec fn has_free_id<H2, H1>(pool: PoolView<H2, H1>, key: (Seq<char>, u16)) -> bool {
    pool.hosts.contains_key(key) ==> pool.hosts[key].next_id < usize::MAX
}

impl<H2: Clone, H1> ConnectionPool<H2, H1> {
    /// Analyze pool state and determine the acquire action. The probes tell how each
    /// connection of the host is, in the order of the connections.
    pub fn determine_action(&mut self, host: &str, port: u16, probes: &[Probe]) -> (action:
        AcquireAction<H2, H1>)
        requires
            old(self).wf(),
            probed(old(self)@, (host@, port), probes@),
        ensures
            final(self).wf(),
            acted(old(self)@, (host@, port), probes@, final(self)@, action),
    {
        let ghost before = self.entries@;
        let ghost pool = self@;
        let limit = self.config.connections_per_host;
        match self.find(host, port) {
            Some(at) => {
                let ghost own = before[at as int].pool@;
                assert(own.wf(pool.limit()));
                let action = match self.entries[at].pool.protocol {
                    NegotiatedProtocol::Http2 => self.entries[at].pool.h2_action(limit, probes),
                    NegotiatedProtocol::Http1 => self.entries[at].pool.h1_action(limit),
                };
                proof {
                    hosts_after_set(before, at as int, self.entries@);
                    assert(self@.hosts[(host@, port)] == self.entries@[at as int].pool@);
                }
                action
            },
            None => {
                self.entries.push(
                    HostEntry {
                        host: host.to_string(),
                        port,
                        pool: HostPool {
                            protocol: NegotiatedProtocol::Http2,
                            connections: Vec::new(),
                            opening_count: 1,
                            next_id: 0,
                        },
                    },
                );
                proof {
                    hosts_after_push(before, self.entries@.last());
                    assert(self.entries@.last().pool@.connections =~= Seq::empty());
                }
                AcquireAction::OpenNew { is_first: true }
            },
        }
    }

    /// Acquire a connection handle for the given host: attempt number `attempt`, counted
    /// from zero.
    ///
    /// Returns an existing connection if available, or asks for a new one to be opened.
    /// Asks to wait if all connections are busy and the pool is at capacity.
    pub fn acquire(&mut self, host: &str, port: u16, attempt: usize, probes: &[Probe]) -> (step:
        AcquireStep<H2, H1>)
        requires
            old(self).wf(),
            probed(old(self)@, (host@, port), probes@),
        ensures
            final(self).wf(),
            step is GiveUp <==> attempt >= 32,
            match step {
                AcquireStep::GiveUp(e) => {
                    &&& attempt >= MAX_ACQUIRE_ATTEMPTS
                    &&& e@ == ErrorView::ConnectionFailed(
                        "pool acquire timeout for "@ + host@ + ":"@ + text::decimal_digits(
                            port as nat,
                        ) + " after "@ + text::decimal_digits(MAX_ACQUIRE_ATTEMPTS as nat)
                            + " attempts"@,
                    )
                    &&& final(self)@ == old(self)@
                },
                AcquireStep::Acquired(handle) => attempt < MAX_ACQUIRE_ATTEMPTS && acted(
                    old(self)@,
                    (host@, port),
                    probes@,
                    final(self)@,
                    AcquireAction::ReturnExisting(handle),
                ),
                AcquireStep::Open { is_first } => attempt < MAX_ACQUIRE_ATTEMPTS && acted(
                    old(self)@,
                    (host@, port),
                    probes@,
                    final(self)@,
                    AcquireAction::OpenNew { is_first },
                ),
                AcquireStep::Wait(span) => attempt < MAX_ACQUIRE_ATTEMPTS && span@ == 250_000_000
                    && acted(
                    old(self)@,
                    (host@, port),
                    probes@,
                    final(self)@,
                    AcquireAction::Wait,
                ),
            },
    {
        if attempt >= MAX_ACQUIRE_ATTEMPTS {
            let mut message = "pool acquire timeout for ".to_string();
            message.append(host);
            message.append(":");
            text::push_decimal(&mut message, port as u128);
            message.append(" after ");
            text::push_decimal(&mut message, MAX_ACQUIRE_ATTEMPTS as u128);
            message.append(" attempts");
            return AcquireStep::GiveUp(DownloadError::ConnectionFailed(message));
        }
        match self.determine_action(host, port, probes) {
            AcquireAction::ReturnExisting(handle) => AcquireStep::Acquired(handle),
            AcquireAction::OpenNew { is_first } => AcquireStep::Open { is_first },
            AcquireAction::Wait => AcquireStep::Wait(notify_wait_timeout()),
        }
    }

    /// Inserts a connection that was to be opened, or forgets about it where that failed.
    /// Returns also whether somebody who waits for a connection to this host is to be
    /// notified.
    pub fn open_and_insert(
        &mut self,
        host: &str,
        port: u16,
        is_first: bool,
        outcome: Result<OpenedConnection<H2, H1>, DownloadError>,
    ) -> (ended: (Result<PoolHandle<H2, H1>, DownloadError>, bool))
        requires
            old(self).wf(),
            is_opening(old(self)@, (host@, port)),
            outcome is Ok ==> has_free_id(old(self)@, (host@, port)),
        ensures
            final(self).wf(),
            open_ended(
                old(self)@,
                (host@, port),
                is_first,
                outcome,
                final(self)@,
                ended.0,
                ended.1,
            ),
    {
        let ghost before = self.entries@;
        let ghost pool = self@;
        let found = self.find(host, port);
        match outcome {
            Ok(opened) => {
                let at = match found {
                    Some(at) => at,
                    None => {
                        let mut message = "pool entry for ".to_string();
                        message.append(host);
                        message.append(":");
                        text::push_decimal(&mut message, port as u128);
                        message.append(" disappeared during connection");
                        return (Err(DownloadError::ConnectionFailed(message)), false);
                    },
                };
                let ghost own = before[at as int].pool@;
                assert(own.wf(pool.limit()));
                let opening = self.entries[at].pool.opening_count;
                self.entries[at].pool.opening_count = opening - 1;
                if is_first {
                    self.entries[at].pool.protocol = match &opened {
                        OpenedConnection::H2(_) => NegotiatedProtocol::Http2,
                        OpenedConnection::H1(_) => NegotiatedProtocol::Http1,
                    };
                }
                let id = self.entries[at].pool.allocate_id();
                let (handed, kept_sender) = match opened {
                    OpenedConnection::H2(sender) => {
                        let shared = sender.clone();
                        (PoolHandleSender::H2(shared), ConnectionSender::H2(sender))
                    },
                    OpenedConnection::H1(sender) => (
                        PoolHandleSender::H1(sender),
                        ConnectionSender::H1(None),
                    ),
                };
                self.entries[at].pool.connections.push(
                    PooledConnection { id, sender: kept_sender },
                );
                proof {
                    let after = host_pool::with_connection(own, opened, is_first);
                    assert(self.entries@[at as int].pool@.connections =~= after.connections);
                    hosts_after_set(before, at as int, self.entries@);
                    assert(after.wf(pool.limit()));
                }
                (Ok(PoolHandle { sender: handed, connection_id: id }), false)
            },
            Err(e) => {
                let at = match found {
                    Some(at) => at,
                    None => {
                        return (Err(e), false);
                    },
                };
                let ghost own = before[at as int].pool@;
                assert(own.wf(pool.limit()));
                let opening = self.entries[at].pool.opening_count;
                if self.entries[at].pool.connections.len() == 0 && opening == 1 {
                    self.entries.remove(at);
                    proof {
                        hosts_after_remove(before, at as int);
                        assert(self@.hosts =~= pool.hosts.remove((host@, port)));
                    }
                    (Err(e), false)
                } else {
                    self.entries[at].pool.opening_count = opening - 1;
                    proof {
                        hosts_after_set(before, at as int, self.entries@);
                    }
                    (Err(e), true)
                }
            },
        }
    }
}

/// There are never more connections to a host, open or being opened, than the limit, of
/// which one is always allowed.
pub proof fn limit_is_kept<H2, H1>(pool: PoolView<H2, H1>, key: (Seq<char>, u16))
    requires
        pool.wf(),
        pool.hosts.contains_key(key),
    ensures
        pool.hosts[key].connections.len() + pool.hosts[key].opening_count <= if pool.limit() > 1 {
            pool.limit()
        } else {
            1
        },
{
    assert(pool.hosts[key].wf(pool.limit()));
}

/// A connection that is to be opened counts as being opened until it has ended.
pub proof fn opening_is_counted<H2: Clone, H1>(
    pool: PoolView<H2, H1>,
    key: (Seq<char>, u16),
    probes: Seq<Probe>,
    after: PoolView<H2, H1>,
    is_first: bool,
)
    requires
        acted(pool, key, probes, after, AcquireAction::OpenNew { is_first }),
    ensures
        after.hosts.contains_key(key),
        is_opening(after, key),
        is_first == !pool.hosts.contains_key(key),
{
}

/// A request for a connection forgets no host, and no connection that is being opened.
pub proof fn openings_are_kept<H2: Clone, H1>(
    pool: PoolView<H2, H1>,
    key: (Seq<char>, u16),
    probes: Seq<Probe>,
    after: PoolView<H2, H1>,
    action: AcquireAction<H2, H1>,
    other: (Seq<char>, u16),
)
    requires
        acted(pool, key, probes, after, action),
        pool.hosts.contains_key(other),
    ensures
        after.hosts.contains_key(other),
        after.hosts[other].opening_count >= pool.hosts[other].opening_count,
        other != key ==> after.hosts[other] == pool.hosts[other],
{
}

/// Opening a first connection to a host that fails leaves the pool as it was.
pub proof fn failed_first_opening_leaves_no_trace<H2: Clone, H1>(
    pool: PoolView<H2, H1>,
    key: (Seq<char>, u16),
    error: DownloadError,
    after: PoolView<H2, H1>,
    result: Result<PoolHandle<H2, H1>, DownloadError>,
    notify: bool,
)
    requires
        !pool.hosts.contains_key(key),
        open_ended(
            pool.with_host(key, first_opening()),
            key,
            true,
            Err(error),
            after,
            result,
            notify,
        ),
    ensures
        after == pool,
        result == Err::<PoolHandle<H2, H1>, DownloadError>(error),
{
    assert(after.hosts =~= pool.hosts);
}

/// A request to a host that is not known yet opens its first connection, and one to a known
/// host never does. Nothing is changed of other hosts, nor of how the pool was set up.
pub proof fn unknown_hosts_are_opened_first<H2: Clone, H1>(
    pool: PoolView<H2, H1>,
    key: (Seq<char>, u16),
    probes: Seq<Probe>,
    after: PoolView<H2, H1>,
    action: AcquireAction<H2, H1>,
    other: (Seq<char>, u16),
)
    requires
        acted(pool, key, probes, after, action),
    ensures
        action == (AcquireAction::<H2, H1>::OpenNew { is_first: true })
            <==> !pool.hosts.contains_key(key),
        !pool.hosts.contains_key(key) ==> after.hosts.contains_key(key)
            && after.hosts[key].connections.len() == 0 && after.hosts[key].opening_count == 1
            && after.hosts[key].next_id == 0,
        after.config == pool.config,
        after.plain_mode == pool.plain_mode,
        other != key ==> (after.hosts.contains_key(other) <==> pool.hosts.contains_key(other)) && (
        pool.hosts.contains_key(other) ==> after.hosts[other] == pool.hosts[other]),
{
}

/// A request to a known host is served by its protocol: HTTP/2 connections are shared, and
/// HTTP/1.1 connections are checked out, within the limit of the configuration.
pub proof fn known_hosts_are_served_by_their_protocol<H2: Clone, H1>(
    pool: PoolView<H2, H1>,
    key: (Seq<char>, u16),
    probes: Seq<Probe>,
    after: PoolView<H2, H1>,
    action: AcquireAction<H2, H1>,
)
    requires
        pool.hosts.contains_key(key),
        acted(pool, key, probes, after, action),
    ensures
        pool.hosts[key].protocol == NegotiatedProtocol::Http2 ==> host_pool::h2_acted(
            pool.hosts[key],
            pool.config.connections_per_host as nat,
            probes,
            after.hosts[key],
            action,
        ),
        pool.hosts[key].protocol == NegotiatedProtocol::Http1 ==> host_pool::h1_acted(
            pool.hosts[key],
            pool.config.connections_per_host as nat,
            after.hosts[key],
            action,
        ),
{
}

/// A connection that was opened is handed out, under the ID that it is kept under, and
/// nobody who waits is woken for it. One that could not be opened hands its error on. It no
/// longer counts as being opened, and wakes one of those who wait, unless nothing is left
/// of its host, which is then forgotten.
pub proof fn openings_end_in_what_was_opened<H2: Clone, H1>(
    pool: PoolView<H2, H1>,
    key: (Seq<char>, u16),
    is_first: bool,
    outcome: Result<OpenedConnection<H2, H1>, DownloadError>,
    after: PoolView<H2, H1>,
    result: Result<PoolHandle<H2, H1>, DownloadError>,
    notify: bool,
    other: (Seq<char>, u16),
)
    requires
        pool.hosts.contains_key(key),
        pool.hosts[key].opening_count > 0,
        pool.hosts[key].next_id < usize::MAX,
        open_ended(pool, key, is_first, outcome, after, result, notify),
    ensures
        result is Ok <==> outcome is Ok,
        outcome matches Ok(opened) ==> {
            let kept = after.hosts[key].connections.last();
            &&& result->Ok_0.connection_id == kept.id
            &&& !notify
            &&& opened matches OpenedConnection::H1(own) ==> result->Ok_0.sender
                == PoolHandleSender::<H2, H1>::H1(own)
            &&& opened matches OpenedConnection::H2(own) ==> result->Ok_0.sender
                matches PoolHandleSender::H2(shared) && cloned::<H2>(own, shared)
        },
        outcome matches Err(error) ==> {
            let alone = pool.hosts[key].connections.len() == 0 && pool.hosts[key].opening_count
                == 1;
            &&& result == Err::<PoolHandle<H2, H1>, DownloadError>(error)
            &&& after.hosts.contains_key(key) <==> !alone
            &&& notify <==> !alone
            &&& !alone ==> after.hosts[key].opening_count + 1 == pool.hosts[key].opening_count
                && after.hosts[key].connections == pool.hosts[key].connections
                && after.hosts[key].protocol == pool.hosts[key].protocol
                && after.hosts[key].next_id == pool.hosts[key].next_id
        },
        after.config == pool.config,
        after.plain_mode == pool.plain_mode,
        other != key ==> (after.hosts.contains_key(other) <==> pool.hosts.contains_key(other)) && (
        pool.hosts.contains_key(other) ==> after.hosts[other] == pool.hosts[other]),
{
}

/// The end of a request wakes one of those who wait for its host, usable or not, where the
/// host is known. It changes that host alone: a connection that is not usable is gone from
/// it, and every other connection stays.
pub proof fn finished_requests_free_their_connection<H2, H1>(
    pool: PoolView<H2, H1>,
    key: (Seq<char>, u16),
    id: usize,
    sender: PoolHandleSender<H2, H1>,
    usable: bool,
    other: (Seq<char>, u16),
)
    ensures
        ({
            let after = request_finished(pool, key, id, sender, usable);
            &&& wakes_waiter(pool, key) <==> pool.hosts.contains_key(key)
            &&& after.config == pool.config
            &&& after.plain_mode == pool.plain_mode
            &&& !pool.hosts.contains_key(key) ==> after == pool
            &&& pool.hosts.contains_key(key) ==> after.hosts.contains_key(key)
            &&& other != key ==> (after.hosts.contains_key(other) <==> pool.hosts.contains_key(
                other,
            )) && (pool.hosts.contains_key(other) ==> after.hosts[other] == pool.hosts[other])
            &&& pool.hosts.contains_key(key) && !usable ==> {
                &&& forall|i: int|
                    0 <= i < after.hosts[key].connections.len() ==> (
                    #[trigger] after.hosts[key].connections[i]).id != id
                &&& forall|i: int|
                    0 <= i < pool.hosts[key].connections.len() && (
                    #[trigger] pool.hosts[key].connections[i]).id != id
                        ==> after.hosts[key].connections.contains(pool.hosts[key].connections[i])
            }
            &&& pool.hosts.contains_key(key) && usable ==> after.hosts[key].connections.len()
                == pool.hosts[key].connections.len() && after.hosts[key].opening_count
                == pool.hosts[key].opening_count
        }),
{
    if pool.hosts.contains_key(key) {
        host_pool::unusable_connection_is_gone(pool.hosts[key], id, sender);
        host_pool::returned_senders_go_to_their_connection(pool.hosts[key], id, sender);
    }
}

} // verus!
