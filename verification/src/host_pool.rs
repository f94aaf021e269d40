//! The connections to one host: which of them serves a request, and when one more is
//! opened.
//!
//! Connections are generic in what sends a request: `H2` can be shared by several requests
//! at a time, `H1` serves one at a time and is checked out meanwhile.

use vstd::prelude::*;

verus! {

/// Negotiated protocol after TLS handshake.
#[derive(Debug, Clone, Copy, PartialEq, Eq, Structural)]
pub enum NegotiatedProtocol {
    Http2,
    Http1,
}

/// Internal connection sender, differentiated by protocol.
#[derive(Debug)]
pub enum ConnectionSender<H2, H1> {
    /// HTTP/2 sender: can be cloned, supports multiplexed streams.
    H2(H2),
    /// HTTP/1.1 sender: missing while it is checked out.
    H1(Option<H1>),
}

/// A single pooled connection with a unique ID.
#[derive(Debug)]
pub struct PooledConnection<H2, H1> {
    pub id: usize,
    pub sender: ConnectionSender<H2, H1>,
}

/// Per-host connection tracking.
#[derive(Debug)]
pub struct HostPool<H2, H1> {
    pub protocol: NegotiatedProtocol,
    pub connections: Vec<PooledConnection<H2, H1>>,
    pub opening_count: usize,
    pub next_id: usize,
}

/// The connections of one host.
pub struct HostView<H2, H1> {
    pub protocol: NegotiatedProtocol,
    pub connections: Seq<PooledConnection<H2, H1>>,
    pub opening_count: nat,
    pub next_id: nat,
}

impl<H2, H1> View for HostPool<H2, H1> {
    type V = HostView<H2, H1>;

    open spec fn view(&self) -> HostView<H2, H1> {
        HostView {
            protocol: self.protocol,
            connections: self.connections@,
            opening_count: self.opening_count as nat,
            next_id: self.next_id as nat,
        }
    }
}

impl<H2, H1> HostView<H2, H1> {
    /// Connections that are open, and connections that are being opened.
    pub open spec fn total_count(self) -> nat {
        self.connections.len() + self.opening_count
    }

    /// No more connections than `limit`, of which one is always allowed, and no two
    /// connections with the same ID.
    pub open spec fn wf(self, limit: nat) -> bool {
        &&& self.total_count() <= limit || self.total_count() <= 1
        &&& forall|i: int|
            0 <= i < self.connections.len() ==> (#[trigger] self.connections[i]).id < self.next_id
        &&& forall|i: int, j: int|
            0 <= i < j < self.connections.len() ==> (#[trigger] self.connections[i]).id != (
            #[trigger] self.connections[j]).id
    }
}

/// HTTP/2 sender readiness status.
#[derive(Debug, Clone, Copy, PartialEq, Eq, Structural)]
pub enum H2Status {
    Ready,
    AtCapacity,
    Dead,
}

/// What asking a connection twice gave: whether it is alive, and then whether it takes
/// another request. Of an HTTP/1.1 connection neither is looked at.
#[derive(Debug, Clone, Copy, PartialEq, Eq, Structural)]
pub struct Probe {
    pub liveness: H2Status,
    pub readiness: H2Status,
}

/// Protocol-specific sender inside a PoolHandle.
#[derive(Debug)]
pub enum PoolHandleSender<H2, H1> {
    H2(H2),
    H1(H1),
}

/// Handle to a connection, wrapping a sender ready for requests.
#[derive(Debug)]
pub struct PoolHandle<H2, H1> {
    pub sender: PoolHandleSender<H2, H1>,
    pub connection_id: usize,
}

/// Result of opening a new connection (before pool insertion).
#[derive(Debug)]
pub enum OpenedConnection<H2, H1> {
    H2(H2),
    H1(H1),
}

/// Action determined by pool state analysis.
#[derive(Debug)]
pub enum AcquireAction<H2, H1> {
    ReturnExisting(PoolHandle<H2, H1>),
    OpenNew { is_first: bool },
    Wait,
}

/// A connection that was found dead.
pub open spec fn found_dead<H2, H1>(entry: (PooledConnection<H2, H1>, Probe)) -> bool {
    entry.0.sender is H2 && entry.1.liveness is Dead
}

/// A connection that takes another request.
pub open spec fn found_ready<H2, H1>(entry: (PooledConnection<H2, H1>, Probe)) -> bool {
    entry.0.sender is H2 && entry.1.readiness is Ready
}

/// The connections that were not found dead, each with what was asked of it.
pub open spec fn alive<H2, H1>(
    connections: Seq<PooledConnection<H2, H1>>,
    probes: Seq<Probe>,
) -> Seq<(PooledConnection<H2, H1>, Probe)>
    decreases connections.len(),
{
    if connections.len() == 0 || probes.len() == 0 {
        Seq::empty()
    } else {
        let rest = alive(connections.drop_last(), probes.drop_last());
        let last = (connections.last(), probes.last());
        if found_dead(last) {
            rest
        } else {
            rest.push(last)
        }
    }
}

/// The connections that were not found dead.
pub open spec fn survivors<H2, H1>(
    connections: Seq<PooledConnection<H2, H1>>,
    probes: Seq<Probe>,
) -> Seq<PooledConnection<H2, H1>> {
    alive(connections, probes).map_values(|entry: (PooledConnection<H2, H1>, Probe)| entry.0)
}

/// The place of the first connection that takes another request, or the number of
/// connections where none does.
pub open spec fn first_ready<H2, H1>(entries: Seq<(PooledConnection<H2, H1>, Probe)>) -> int
    decreases entries.len(),
{
    if entries.len() == 0 {
        0
    } else {
        let earlier = first_ready(entries.drop_last());
        if earlier < entries.len() - 1 || found_ready(entries.last()) {
            earlier
        } else {
            entries.len() as int
        }
    }
}

/// A connection that nobody has checked out.
pub open spec fn is_idle<H2, H1>(connection: PooledConnection<H2, H1>) -> bool {
    connection.sender matches ConnectionSender::H1(sender) && sender is Some
}

/// The place of the first idle connection, or the number of connections where none is.
pub open spec fn first_idle<H2, H1>(connections: Seq<PooledConnection<H2, H1>>) -> int
    decreases connections.len(),
{
    if connections.len() == 0 {
        0
    } else {
        let earlier = first_idle(connections.drop_last());
        if earlier < connections.len() - 1 || is_idle(connections.last()) {
            earlier
        } else {
            connections.len() as int
        }
    }
}

/// A connection whose sender is checked out.
pub open spec fn checked_out<H2, H1>(connection: PooledConnection<H2, H1>) -> PooledConnection<
    H2,
    H1,
> {
    PooledConnection { id: connection.id, sender: ConnectionSender::H1(None) }
}

/// What is done where no connection is free: a new one is opened as long as there are
/// fewer than `limit`.
pub open spec fn scaled<H2, H1>(
    host: HostView<H2, H1>,
    limit: nat,
    after: HostView<H2, H1>,
    action: AcquireAction<H2, H1>,
) -> bool {
    if host.total_count() < limit {
        &&& action == AcquireAction::<H2, H1>::OpenNew { is_first: false }
        &&& after == HostView { opening_count: host.opening_count + 1, ..host }
    } else {
        &&& action == AcquireAction::<H2, H1>::Wait
        &&& after == host
    }
}

/// What is done on an HTTP/2 host: dead connections are dropped, and the first that takes
/// another request is shared.
pub open spec fn h2_acted<H2: Clone, H1>(
    host: HostView<H2, H1>,
    limit: nat,
    probes: Seq<Probe>,
    after: HostView<H2, H1>,
    action: AcquireAction<H2, H1>,
) -> bool {
    let entries = alive(host.connections, probes);
    let ready = first_ready(entries);
    let cleaned = HostView { connections: survivors(host.connections, probes), ..host };
    if ready < entries.len() {
        &&& after == cleaned
        &&& action matches AcquireAction::ReturnExisting(handle)
        &&& handle.connection_id == entries[ready].0.id
        &&& handle.sender matches PoolHandleSender::H2(shared)
        &&& cloned::<H2>(entries[ready].0.sender->H2_0, shared)
    } else {
        scaled(cleaned, limit, after, action)
    }
}

/// What is done on an HTTP/1.1 host: the first idle connection is checked out.
pub open spec fn h1_acted<H2, H1>(
    host: HostView<H2, H1>,
    limit: nat,
    after: HostView<H2, H1>,
    action: AcquireAction<H2, H1>,
) -> bool {
    let idle = first_idle(host.connections);
    if idle < host.connections.len() {
        let connection = host.connections[idle];
        &&& after == HostView {
            connections: host.connections.update(idle, checked_out(connection)),
            ..host
        }
        &&& action == AcquireAction::<H2, H1>::ReturnExisting(
            PoolHandle {
                sender: PoolHandleSender::H1(connection.sender->H1_0.unwrap()),
                connection_id: connection.id,
            },
        )
    } else {
        scaled(host, limit, after, action)
    }
}

/// The protocol that a connection speaks.
pub open spec fn protocol_of<H2, H1>(opened: OpenedConnection<H2, H1>) -> NegotiatedProtocol {
    match opened {
        OpenedConnection::H2(_) => NegotiatedProtocol::Http2,
        OpenedConnection::H1(_) => NegotiatedProtocol::Http1,
    }
}

/// What the pool keeps of a connection that was opened for a request: an HTTP/1.1
/// connection is checked out from the start.
pub open spec fn kept<H2, H1>(opened: OpenedConnection<H2, H1>) -> ConnectionSender<H2, H1> {
    match opened {
        OpenedConnection::H2(sender) => ConnectionSender::H2(sender),
        OpenedConnection::H1(_) => ConnectionSender::H1(None),
    }
}

/// Whether `sender` is what a request gets of a connection that was opened for it.
pub open spec fn handed_out<H2: Clone, H1>(
    opened: OpenedConnection<H2, H1>,
    sender: PoolHandleSender<H2, H1>,
) -> bool {
    match opened {
        OpenedConnection::H2(own) => sender matches PoolHandleSender::H2(shared) && cloned::<H2>(
            own,
            shared,
        ),
        OpenedConnection::H1(own) => sender == PoolHandleSender::<H2, H1>::H1(own),
    }
}

/// A host after one more connection has been opened to it.
pub open spec fn with_connection<H2, H1>(
    host: HostView<H2, H1>,
    opened: OpenedConnection<H2, H1>,
    is_first: bool,
) -> HostView<H2, H1> {
    HostView {
        protocol: if is_first {
            protocol_of(opened)
        } else {
            host.protocol
        },
        connections: host.connections.push(
            PooledConnection { id: host.next_id as usize, sender: kept(opened) },
        ),
        opening_count: (host.opening_count - 1) as nat,
        next_id: host.next_id + 1,
    }
}

/// A host after `sender` has been returned to the connection with this ID, where that is
/// an HTTP/1.1 connection.
pub open spec fn with_returned<H2, H1>(host: HostView<H2, H1>, id: usize, sender: H1) -> HostView<
    H2,
    H1,
> {
    HostView {
        connections: host.connections.map_values(
            |c: PooledConnection<H2, H1>|
                if c.id == id && c.sender is H1 {
                    PooledConnection { id, sender: ConnectionSender::H1(Some(sender)) }
                } else {
                    c
                },
        ),
        ..host
    }
}

/// The connections but those with this ID.
pub open spec fn without_id<H2, H1>(
    connections: Seq<PooledConnection<H2, H1>>,
    id: usize,
) -> Seq<PooledConnection<H2, H1>>
    decreases connections.len(),
{
    if connections.len() == 0 {
        connections
    } else {
        let rest = without_id(connections.drop_last(), id);
        if connections.last().id == id {
            rest
        } else {
            rest.push(connections.last())
        }
    }
}

/// A host after a request on one of its connections has come to an end: a connection that
/// is still usable is there for the next request, any other is removed.
pub open spec fn finished<H2, H1>(
    host: HostView<H2, H1>,
    id: usize,
    sender: PoolHandleSender<H2, H1>,
    usable: bool,
) -> HostView<H2, H1> {
    if usable {
        match sender {
            PoolHandleSender::H1(h1) => with_returned(host, id, h1),
            PoolHandleSender::H2(_) => host,
        }
    } else {
        HostView { connections: without_id(host.connections, id), ..host }
    }
}

proof fn alive_bounds<H2, H1>(connections: Seq<PooledConnection<H2, H1>>, probes: Seq<Probe>)
    requires
        connections.len() == probes.len(),
    ensures
        alive(connections, probes).len() <= connections.len(),
        forall|i: int|
            0 <= i < alive(connections, probes).len() ==> exists|k: int|
                i <= k < connections.len() && (#[trigger] alive(connections, probes)[i]).0
                    == connections[k],
        forall|i: int, j: int|
            0 <= i < j < alive(connections, probes).len() ==> exists|k: int, l: int|
                0 <= k < l < connections.len() && (#[trigger] alive(connections, probes)[i]).0
                    == connections[k] && (#[trigger] alive(connections, probes)[j]).0
                    == connections[l],
    decreases connections.len(),
{
    if connections.len() > 0 {
        let fewer = connections.drop_last();
        alive_bounds(fewer, probes.drop_last());
        let rest = alive(fewer, probes.drop_last());
        let all = alive(connections, probes);
        let last = connections.len() - 1;
        assert forall|i: int| 0 <= i < all.len() implies exists|k: int|
            i <= k < connections.len() && (#[trigger] all[i]).0 == connections[k] by {
            if i < rest.len() {
                let k = choose|k: int| i <= k < fewer.len() && rest[i].0 == fewer[k];
                assert(all[i].0 == connections[k]);
            } else {
                assert(all[i].0 == connections[last]);
            }
        }
        assert forall|i: int, j: int| 0 <= i < j < all.len() implies exists|k: int, l: int|
            0 <= k < l < connections.len() && (#[trigger] all[i]).0 == connections[k] && (
            #[trigger] all[j]).0 == connections[l] by {
            if j < rest.len() {
                let (k, l) = choose|k: int, l: int|
                    0 <= k < l < fewer.len() && rest[i].0 == fewer[k] && rest[j].0 == fewer[l];
                assert(all[i].0 == connections[k] && all[j].0 == connections[l]);
            } else {
                let k = choose|k: int| i <= k < fewer.len() && rest[i].0 == fewer[k];
                assert(all[i].0 == connections[k] && all[j].0 == connections[last]);
            }
        }
    }
}

/// Dropping dead connections keeps the host's connections within their limit and their
/// IDs apart.
proof fn survivors_wf<H2, H1>(host: HostView<H2, H1>, limit: nat, probes: Seq<Probe>)
    requires
        host.wf(limit),
        host.connections.len() == probes.len(),
    ensures
        (HostView { connections: survivors(host.connections, probes), ..host }).wf(limit),
{
    alive_bounds(host.connections, probes);
    let entries = alive(host.connections, probes);
    let left = survivors(host.connections, probes);
    assert forall|i: int| 0 <= i < left.len() implies (#[trigger] left[i]).id < host.next_id by {
        let k = choose|k: int|
            i <= k < host.connections.len() && entries[i].0 == host.connections[k];
        assert(host.connections[k].id < host.next_id);
    }
    assert forall|i: int, j: int| 0 <= i < j < left.len() implies (#[trigger] left[i]).id != (
    #[trigger] left[j]).id by {
        let (k, l) = choose|k: int, l: int|
            0 <= k < l < host.connections.len() && entries[i].0 == host.connections[k]
                && entries[j].0 == host.connections[l];
        assert(host.connections[k].id != host.connections[l].id);
    }
}

proof fn first_ready_bounds<H2, H1>(entries: Seq<(PooledConnection<H2, H1>, Probe)>)
    ensures
        0 <= first_ready(entries) <= entries.len(),
        first_ready(entries) < entries.len() ==> found_ready(entries[first_ready(entries)]),
    decreases entries.len(),
{
    if entries.len() > 0 {
        first_ready_bounds(entries.drop_last());
    }
}

proof fn first_idle_is<H2, H1>(connections: Seq<PooledConnection<H2, H1>>, at: int)
    requires
        0 <= at <= connections.len(),
        forall|i: int| 0 <= i < at ==> !is_idle(#[trigger] connections[i]),
        at < connections.len() ==> is_idle(connections[at]),
    ensures
        first_idle(connections) == at,
    decreases connections.len(),
{
    if connections.len() > 0 {
        let fewer = connections.drop_last();
        assert forall|i: int| 0 <= i < at && i < fewer.len() implies !is_idle(
            #[trigger] fewer[i],
        ) by {
            assert(!is_idle(connections[i]));
        }
        if at < connections.len() {
            first_idle_is(
                fewer,
                if at < fewer.len() {
                    at
                } else {
                    fewer.len() as int
                },
            );
        } else {
            first_idle_is(fewer, fewer.len() as int);
            assert(!is_idle(connections[connections.len() - 1]));
        }
    }
}

proof fn first_idle_finds<H2, H1>(connections: Seq<PooledConnection<H2, H1>>)
    ensures
        0 <= first_idle(connections) <= connections.len(),
        first_idle(connections) < connections.len() ==> is_idle(
            connections[first_idle(connections)],
        ),
    decreases connections.len(),
{
    if connections.len() > 0 {
        first_idle_finds(connections.drop_last());
    }
}

proof fn without_id_bounds<H2, H1>(connections: Seq<PooledConnection<H2, H1>>, id: usize)
    ensures
        without_id(connections, id).len() <= connections.len(),
        forall|i: int|
            0 <= i < without_id(connections, id).len() ==> (#[trigger] without_id(
                connections,
                id,
            )[i]).id != id && connections.contains(without_id(connections, id)[i]),
        (forall|i: int, j: int|
            0 <= i < j < connections.len() ==> (#[trigger] connections[i]).id != (
            #[trigger] connections[j]).id) ==> (forall|i: int, j: int|
            0 <= i < j < without_id(connections, id).len() ==> (#[trigger] without_id(
                connections,
                id,
            )[i]).id != (#[trigger] without_id(connections, id)[j]).id),
    decreases connections.len(),
{
    if connections.len() > 0 {
        let fewer = connections.drop_last();
        let last = connections.len() - 1;
        without_id_bounds(fewer, id);
        let rest = without_id(fewer, id);
        let all = without_id(connections, id);
        assert forall|i: int| 0 <= i < all.len() implies (#[trigger] all[i]).id != id
            && connections.contains(all[i]) by {
            if i < rest.len() {
                let k = choose|k: int| 0 <= k < fewer.len() && fewer[k] == rest[i];
                assert(connections[k] == all[i]);
            } else {
                assert(connections[last] == all[i]);
            }
        }
        if forall|i: int, j: int|
            0 <= i < j < connections.len() ==> (#[trigger] connections[i]).id != (
            #[trigger] connections[j]).id {
            assert forall|i: int, j: int| 0 <= i < j < fewer.len() implies (#[trigger] fewer[i]).id
                != (#[trigger] fewer[j]).id by {
                assert(connections[i].id != connections[j].id);
            }
            assert forall|i: int, j: int| 0 <= i < j < all.len() implies (#[trigger] all[i]).id != (
            #[trigger] all[j]).id by {
                if j >= rest.len() {
                    assert(fewer.contains(rest[i]));
                    let k = choose|k: int| 0 <= k < fewer.len() && fewer[k] == rest[i];
                    assert(connections[k].id != connections[last].id);
                } else {
                    assert(rest[i].id != rest[j].id);
                }
            }
        }
    }
}

/// Removing connections keeps a host within its limit and its IDs apart.
pub proof fn without_id_wf<H2, H1>(host: HostView<H2, H1>, limit: nat, id: usize)
    requires
        host.wf(limit),
    ensures
        (HostView { connections: without_id(host.connections, id), ..host }).wf(limit),
{
    without_id_bounds(host.connections, id);
    let left = without_id(host.connections, id);
    assert forall|i: int| 0 <= i < left.len() implies (#[trigger] left[i]).id < host.next_id by {
        let k = choose|k: int| 0 <= k < host.connections.len() && host.connections[k] == left[i];
        assert(host.connections[k].id < host.next_id);
    }
}

proof fn nothing_dead<H2, H1>(connections: Seq<PooledConnection<H2, H1>>, probes: Seq<Probe>)
    requires
        connections.len() == probes.len(),
        forall|i: int|
            0 <= i < connections.len() ==> !found_dead((#[trigger] connections[i], probes[i])),
    ensures
        survivors(connections, probes) == connections,
    decreases connections.len(),
{
    if connections.len() > 0 {
        let fewer = connections.drop_last();
        assert forall|i: int| 0 <= i < fewer.len() implies !found_dead(
            (#[trigger] fewer[i], probes.drop_last()[i]),
        ) by {
            assert(!found_dead((connections[i], probes[i])));
        }
        nothing_dead(fewer, probes.drop_last());
        let last = connections.len() - 1;
        assert(!found_dead((connections[last], probes[last])));
        assert(survivors(connections, probes) =~= survivors(fewer, probes.drop_last()).push(
            connections[last],
        ));
    }
    assert(survivors(connections, probes) =~= connections);
}

impl<H2, H1> HostPool<H2, H1> {
    /// Connections that are open, and connections that are being opened.
    pub fn total_count(&self) -> (n: usize)
        requires
            self@.total_count() <= usize::MAX,
        ensures
            n == self@.total_count(),
    {
        self.connections.len() + self.opening_count
    }

    /// An ID that no connection of this host has had.
    pub fn allocate_id(&mut self) -> (id: usize)
        requires
            old(self).next_id < usize::MAX,
        ensures
            id == old(self).next_id,
            final(self)@ == (HostView { next_id: old(self)@.next_id + 1, ..old(self)@ }),
    {
        let id = self.next_id;
        self.next_id = self.next_id + 1;
        id
    }

    /// Opens a new connection as long as there are fewer than `limit`, and waits
    /// otherwise.
    pub fn scale_or_wait(&mut self, limit: usize) -> (action: AcquireAction<H2, H1>)
        requires
            old(self)@.wf(limit as nat),
        ensures
            scaled(old(self)@, limit as nat, final(self)@, action),
            final(self)@.wf(limit as nat),
    {
        if self.total_count() < limit {
            self.opening_count = self.opening_count + 1;
            AcquireAction::OpenNew { is_first: false }
        } else {
            AcquireAction::Wait
        }
    }

    /// Checks out the first idle connection, where there is one.
    pub fn h1_action(&mut self, limit: usize) -> (action: AcquireAction<H2, H1>)
        requires
            old(self)@.wf(limit as nat),
        ensures
            h1_acted(old(self)@, limit as nat, final(self)@, action),
            final(self)@.wf(limit as nat),
    {
        let ghost before = self@;
        let mut i: usize = 0;
        while i < self.connections.len()
            invariant
                self@ == before,
                old(self)@ == before,
                before.wf(limit as nat),
                i <= self.connections@.len(),
                forall|j: int| 0 <= j < i ==> !is_idle(#[trigger] before.connections[j]),
            decreases self.connections@.len() - i,
        {
            let id = self.connections[i].id;
            if let ConnectionSender::H1(opt) = &mut self.connections[i].sender {
                if let Some(sender) = opt.take() {
                    proof {
                        first_idle_is(before.connections, i as int);
                        assert(self.connections@ =~= before.connections.update(
                            i as int,
                            checked_out(before.connections[i as int]),
                        ));
                    }
                    return AcquireAction::ReturnExisting(
                        PoolHandle { sender: PoolHandleSender::H1(sender), connection_id: id },
                    );
                }
            }
            assert(self.connections@ =~= before.connections);
            i += 1;
        }
        proof {
            first_idle_is(before.connections, i as int);
        }
        self.scale_or_wait(limit)
    }
}

impl<H2, H1> HostPool<H2, H1> {
    /// Drops the connections with this ID.
    pub fn remove_id(&mut self, id: usize)
        ensures
            final(self)@ == (HostView {
                connections: without_id(old(self)@.connections, id),
                ..old(self)@
            }),
    {
        let ghost before = self@;
        let count = self.connections.len();
        let mut i: usize = 0;
        let mut j: usize = 0;
        assert(self.connections@ =~= without_id(before.connections.take(0), id)
            + before.connections.skip(0));
        while j < count
            invariant
                count == before.connections.len(),
                i <= j <= count,
                i == without_id(before.connections.take(j as int), id).len(),
                self@ == (HostView {
                    connections: without_id(before.connections.take(j as int), id)
                        + before.connections.skip(j as int),
                    ..before
                }),
            decreases count - j,
        {
            proof {
                let more = before.connections.take(j + 1);
                assert(more.drop_last() =~= before.connections.take(j as int));
                assert(self.connections@[i as int] == before.connections[j as int]);
            }
            if self.connections[i].id == id {
                self.connections.remove(i);
            } else {
                i += 1;
            }
            j += 1;
            assert(self.connections@ =~= without_id(before.connections.take(j as int), id)
                + before.connections.skip(j as int));
        }
        proof {
            assert(before.connections.take(j as int) =~= before.connections);
            assert(self.connections@ =~= without_id(before.connections, id));
        }
    }
}

impl<H2: Clone, H1> HostPool<H2, H1> {
    /// Drops the connections that were found dead, and shares the first that takes another
    /// request, where there is one.
    pub fn h2_action(&mut self, limit: usize, probes: &[Probe]) -> (action: AcquireAction<H2, H1>)
        requires
            old(self)@.wf(limit as nat),
            probes@.len() == old(self)@.connections.len(),
        ensures
            h2_acted(old(self)@, limit as nat, probes@, final(self)@, action),
            final(self)@.wf(limit as nat),
    {
        let ghost before = self@;
        let mut ready: Option<usize> = None;
        let mut i: usize = 0;
        let mut j: usize = 0;
        assert(self.connections@ =~= survivors(before.connections.take(0), probes@.take(0))
            + before.connections.skip(0));
        while j < probes.len()
            invariant
                old(self)@ == before,
                before.wf(limit as nat),
                probes@.len() == before.connections.len(),
                i <= j <= probes@.len(),
                self@ == (HostView {
                    connections: survivors(
                        before.connections.take(j as int),
                        probes@.take(j as int),
                    ) + before.connections.skip(j as int),
                    ..before
                }),
                i == alive(before.connections.take(j as int), probes@.take(j as int)).len(),
                first_ready(alive(before.connections.take(j as int), probes@.take(j as int)))
                    == match ready {
                    Some(r) => r as int,
                    None => i as int,
                },
                ready matches Some(r) ==> r < i,
            decreases probes@.len() - j,
        {
            let ghost seen = before.connections.take(j as int);
            let ghost more = before.connections.take(j + 1);
            proof {
                assert(more.drop_last() =~= seen);
                assert(probes@.take(j + 1).drop_last() =~= probes@.take(j as int));
                assert(self.connections@[i as int] == before.connections[j as int]);
                let entries = alive(more, probes@.take(j + 1));
                let entry = (before.connections[j as int], probes@[j as int]);
                if !found_dead(entry) {
                    assert(entries.drop_last() =~= alive(seen, probes@.take(j as int)));
                    assert(survivors(more, probes@.take(j + 1)) =~= survivors(
                        seen,
                        probes@.take(j as int),
                    ).push(entry.0));
                }
            }
            let shared = match &self.connections[i].sender {
                ConnectionSender::H2(_) => true,
                ConnectionSender::H1(_) => false,
            };
            if shared && probes[j].liveness == H2Status::Dead {
                self.connections.remove(i);
            } else {
                if ready.is_none() && shared && probes[j].readiness == H2Status::Ready {
                    ready = Some(i);
                }
                i += 1;
            }
            j += 1;
            assert(self.connections@ =~= survivors(more, probes@.take(j as int))
                + before.connections.skip(j as int));
        }
        proof {
            assert(before.connections.take(j as int) =~= before.connections);
            assert(probes@.take(j as int) =~= probes@);
            assert(self.connections@ =~= survivors(before.connections, probes@));
            survivors_wf(before, limit as nat, probes@);
            first_ready_bounds(alive(before.connections, probes@));
        }
        if let Some(r) = ready {
            if let ConnectionSender::H2(sender) = &self.connections[r].sender {
                return AcquireAction::ReturnExisting(
                    PoolHandle {
                        sender: PoolHandleSender::H2(sender.clone()),
                        connection_id: self.connections[r].id,
                    },
                );
            }
        }
        self.scale_or_wait(limit)
    }
}

/// A connection that is checked out is not handed out again before it is returned.
pub proof fn checkout_is_exclusive<H2, H1>(
    host: HostView<H2, H1>,
    limit: nat,
    after: HostView<H2, H1>,
    first: PoolHandle<H2, H1>,
    later: HostView<H2, H1>,
    second: PoolHandle<H2, H1>,
)
    requires
        host.wf(limit),
        h1_acted(host, limit, after, AcquireAction::ReturnExisting(first)),
        h1_acted(after, limit, later, AcquireAction::ReturnExisting(second)),
    ensures
        first.connection_id != second.connection_id,
{
    let a = first_idle(host.connections);
    let b = first_idle(after.connections);
    first_idle_finds(host.connections);
    first_idle_finds(after.connections);
    assert(a != b);
    if a < b {
        assert(host.connections[a].id != host.connections[b].id);
    } else {
        assert(host.connections[b].id != host.connections[a].id);
    }
}

/// Returning what was checked out makes the host what it was before, so that the same
/// connection is handed out next.
pub proof fn return_undoes_checkout<H2, H1>(
    host: HostView<H2, H1>,
    limit: nat,
    after: HostView<H2, H1>,
    handle: PoolHandle<H2, H1>,
)
    requires
        host.wf(limit),
        h1_acted(host, limit, after, AcquireAction::ReturnExisting(handle)),
    ensures
        handle.sender matches PoolHandleSender::H1(sender) && finished(
            after,
            handle.connection_id,
            handle.sender,
            true,
        ) == host,
{
    let at = first_idle(host.connections);
    first_idle_finds(host.connections);
    let sender = handle.sender->H1_0;
    let returned = with_returned(after, handle.connection_id, sender).connections;
    assert forall|i: int| 0 <= i < host.connections.len() implies returned[i]
        == #[trigger] host.connections[i] by {
        if i < at {
            assert(host.connections[i].id != host.connections[at].id);
        } else if i > at {
            assert(host.connections[at].id != host.connections[i].id);
        }
    }
    assert(returned =~= host.connections);
}

/// No connection that was found dead stays, and no other is dropped.
pub proof fn dead_connections_are_dropped<H2, H1>(
    connections: Seq<PooledConnection<H2, H1>>,
    probes: Seq<Probe>,
)
    requires
        connections.len() == probes.len(),
    ensures
        forall|i: int|
            0 <= i < alive(connections, probes).len() ==> !found_dead(
                #[trigger] alive(connections, probes)[i],
            ),
        forall|i: int|
            0 <= i < connections.len() && !found_dead((#[trigger] connections[i], probes[i]))
                ==> alive(connections, probes).contains((connections[i], probes[i])),
    decreases connections.len(),
{
    if connections.len() > 0 {
        let fewer = connections.drop_last();
        dead_connections_are_dropped(fewer, probes.drop_last());
        let rest = alive(fewer, probes.drop_last());
        let all = alive(connections, probes);
        assert forall|i: int|
            0 <= i < connections.len() && !found_dead(
                (#[trigger] connections[i], probes[i]),
            ) implies all.contains((connections[i], probes[i])) by {
            if i < fewer.len() {
                assert(fewer[i] == connections[i]);
                assert(rest.contains((connections[i], probes[i])));
                let k = choose|k: int|
                    0 <= k < rest.len() && rest[k] == (connections[i], probes[i]);
                assert(all[k] == rest[k]);
            } else {
                assert(all[rest.len() as int] == (connections[i], probes[i]));
            }
        }
    }
}

/// Where no connection is dead, sharing one leaves the host as it was, so that the next
/// request shares the same connection as long as that takes another.
pub proof fn sharing_leaves_host_as_it_was<H2: Clone, H1>(
    host: HostView<H2, H1>,
    limit: nat,
    probes: Seq<Probe>,
    after: HostView<H2, H1>,
    handle: PoolHandle<H2, H1>,
)
    requires
        host.connections.len() == probes.len(),
        forall|i: int|
            0 <= i < host.connections.len() ==> !found_dead(
                (#[trigger] host.connections[i], probes[i]),
            ),
        h2_acted(host, limit, probes, after, AcquireAction::ReturnExisting(handle)),
    ensures
        after == host,
{
    nothing_dead(host.connections, probes);
}

/// A connection that is removed is gone, and every other stays.
pub proof fn removed_connection_is_gone<H2, H1>(
    connections: Seq<PooledConnection<H2, H1>>,
    id: usize,
)
    ensures
        forall|i: int|
            0 <= i < without_id(connections, id).len() ==> (#[trigger] without_id(
                connections,
                id,
            )[i]).id != id,
        forall|i: int|
            0 <= i < connections.len() && (#[trigger] connections[i]).id != id ==> without_id(
                connections,
                id,
            ).contains(connections[i]),
    decreases connections.len(),
{
    if connections.len() > 0 {
        let fewer = connections.drop_last();
        removed_connection_is_gone(fewer, id);
        let rest = without_id(fewer, id);
        let all = without_id(connections, id);
        assert forall|i: int|
            0 <= i < connections.len() && (#[trigger] connections[i]).id
                != id implies all.contains(connections[i]) by {
            if i < fewer.len() {
                assert(fewer[i] == connections[i]);
                let k = choose|k: int| 0 <= k < rest.len() && rest[k] == connections[i];
                assert(all[k] == connections[i]);
            } else {
                assert(all[rest.len() as int] == connections[i]);
            }
        }
    }
}

/// A connection that is not usable after a request is gone, whichever protocol it speaks,
/// and every other connection stays.
pub proof fn unusable_connection_is_gone<H2, H1>(
    host: HostView<H2, H1>,
    id: usize,
    sender: PoolHandleSender<H2, H1>,
)
    ensures
        forall|i: int|
            0 <= i < finished(host, id, sender, false).connections.len() ==> (#[trigger] finished(
                host,
                id,
                sender,
                false,
            ).connections[i]).id != id,
        forall|i: int|
            0 <= i < host.connections.len() && (#[trigger] host.connections[i]).id != id
                ==> finished(host, id, sender, false).connections.contains(host.connections[i]),
{
    removed_connection_is_gone(host.connections, id);
}

/// A new connection gets an ID that was not given before: every ID given so far is
/// smaller than the next, and stays so.
pub proof fn ids_are_not_reused<H2, H1>(
    host: HostView<H2, H1>,
    opened: OpenedConnection<H2, H1>,
    is_first: bool,
    earlier: usize,
)
    requires
        host.next_id < usize::MAX,
        earlier < host.next_id,
    ensures
        with_connection(host, opened, is_first).connections.last().id != earlier,
        earlier < with_connection(host, opened, is_first).next_id,
{
}

proof fn first_idle_skips<H2, H1>(connections: Seq<PooledConnection<H2, H1>>)
    ensures
        forall|i: int| 0 <= i < first_idle(connections) ==> !is_idle(#[trigger] connections[i]),
    decreases connections.len(),
{
    if connections.len() > 0 {
        let fewer = connections.drop_last();
        first_idle_skips(fewer);
        first_idle_finds(fewer);
        assert forall|i: int| 0 <= i < first_idle(connections) implies !is_idle(
            #[trigger] connections[i],
        ) by {
            if i < fewer.len() {
                assert(fewer[i] == connections[i]);
            }
        }
    }
}

/// On an HTTP/1.1 host a request gets the first connection that nobody has checked out, with
/// the sender of that very connection, which is then checked out; nothing else changes. Only
/// where none is idle, a new connection is opened, and only where there are already as many
/// as allowed, the request waits and the host stays as it is.
pub proof fn idle_connections_are_used_first<H2, H1>(
    host: HostView<H2, H1>,
    limit: nat,
    after: HostView<H2, H1>,
    action: AcquireAction<H2, H1>,
)
    requires
        h1_acted(host, limit, after, action),
    ensures
        after.protocol == host.protocol,
        after.next_id == host.next_id,
        action matches AcquireAction::ReturnExisting(handle) ==> after.opening_count
            == host.opening_count && exists|i: int|
            0 <= i < host.connections.len() && {
                let c = #[trigger] host.connections[i];
                &&& handle.connection_id == c.id
                &&& handle.sender matches PoolHandleSender::H1(sender)
                &&& c.sender == ConnectionSender::<H2, H1>::H1(Some(sender))
                &&& after.connections == host.connections.update(
                    i,
                    PooledConnection { id: c.id, sender: ConnectionSender::H1(None) },
                )
                &&& forall|j: int|
                    0 <= j < i ==> !((#[trigger] host.connections[j]).sender
                        matches ConnectionSender::H1(Some(_)))
            },
        !(action is ReturnExisting) ==> after.connections == host.connections && forall|i: int|
            0 <= i < host.connections.len() ==> !((#[trigger] host.connections[i]).sender
                matches ConnectionSender::H1(Some(_))),
        action matches AcquireAction::OpenNew { is_first } ==> !is_first && host.connections.len()
            + host.opening_count < limit && after.opening_count == host.opening_count + 1,
        action is Wait ==> host.connections.len() + host.opening_count >= limit
            && after.opening_count == host.opening_count,
{
    first_idle_finds(host.connections);
    first_idle_skips(host.connections);
    let at = first_idle(host.connections);
    assert forall|j: int| 0 <= j < at implies !((#[trigger] host.connections[j]).sender
        matches ConnectionSender::H1(Some(_))) by {
        assert(!is_idle(host.connections[j]));
    }
    if at < host.connections.len() {
        assert(is_idle(host.connections[at]));
    }
}

proof fn alive_comes_from<H2, H1>(connections: Seq<PooledConnection<H2, H1>>, probes: Seq<Probe>)
    requires
        connections.len() == probes.len(),
    ensures
        forall|i: int|
            0 <= i < alive(connections, probes).len() ==> exists|k: int|
                0 <= k < connections.len() && (#[trigger] alive(connections, probes)[i]) == (
                    connections[k],
                    probes[k],
                ),
    decreases connections.len(),
{
    if connections.len() > 0 {
        let fewer = connections.drop_last();
        let asked = probes.drop_last();
        alive_comes_from(fewer, asked);
        let rest = alive(fewer, asked);
        let all = alive(connections, probes);
        assert forall|i: int| 0 <= i < all.len() implies exists|k: int|
            0 <= k < connections.len() && (#[trigger] all[i]) == (connections[k], probes[k]) by {
            if i < rest.len() {
                assert(all[i] == rest[i]);
                let k = choose|k: int| 0 <= k < fewer.len() && rest[i] == (fewer[k], asked[k]);
                assert(all[i] == (connections[k], probes[k]));
            } else {
                let last = connections.len() - 1;
                assert(all[i] == (connections[last], probes[last]));
            }
        }
    }
}

proof fn first_ready_skips<H2, H1>(entries: Seq<(PooledConnection<H2, H1>, Probe)>)
    ensures
        forall|i: int| 0 <= i < first_ready(entries) ==> !found_ready(#[trigger] entries[i]),
    decreases entries.len(),
{
    if entries.len() > 0 {
        let fewer = entries.drop_last();
        first_ready_skips(fewer);
        first_ready_bounds(fewer);
        assert forall|i: int| 0 <= i < first_ready(entries) implies !found_ready(
            #[trigger] entries[i],
        ) by {
            if i < fewer.len() {
                assert(fewer[i] == entries[i]);
            }
        }
    }
}

/// On an HTTP/2 host a request shares a connection that is alive and takes another request,
/// as long as there is one. What was found dead is dropped, and nothing else. Only where no
/// connection can be shared, a new one is opened, and only where as many as allowed are
/// left, the request waits.
pub proof fn ready_connections_are_shared_first<H2: Clone, H1>(
    host: HostView<H2, H1>,
    limit: nat,
    probes: Seq<Probe>,
    after: HostView<H2, H1>,
    action: AcquireAction<H2, H1>,
)
    requires
        host.connections.len() == probes.len(),
        h2_acted(host, limit, probes, after, action),
    ensures
        after.protocol == host.protocol,
        after.next_id == host.next_id,
        after.connections == survivors(host.connections, probes),
        action matches AcquireAction::ReturnExisting(handle) ==> after.opening_count
            == host.opening_count && exists|i: int|
            0 <= i < host.connections.len() && {
                let c = #[trigger] host.connections[i];
                &&& handle.connection_id == c.id
                &&& c.sender matches ConnectionSender::H2(own)
                &&& handle.sender matches PoolHandleSender::H2(shared)
                &&& cloned::<H2>(own, shared)
                &&& probes[i].liveness != H2Status::Dead
                &&& probes[i].readiness == H2Status::Ready
            },
        !(action is ReturnExisting) ==> forall|i: int|
            0 <= i < host.connections.len() ==> {
                ||| !((#[trigger] host.connections[i]).sender is H2)
                ||| probes[i].liveness == H2Status::Dead
                ||| probes[i].readiness != H2Status::Ready
            },
        action matches AcquireAction::OpenNew { is_first } ==> !is_first && after.connections.len()
            + host.opening_count < limit && after.opening_count == host.opening_count + 1,
        action is Wait ==> after.connections.len() + host.opening_count >= limit
            && after.opening_count == host.opening_count,
{
    let entries = alive(host.connections, probes);
    let ready = first_ready(entries);
    first_ready_bounds(entries);
    first_ready_skips(entries);
    alive_comes_from(host.connections, probes);
    dead_connections_are_dropped(host.connections, probes);
    if ready < entries.len() {
        let k = choose|k: int|
            0 <= k < host.connections.len() && entries[ready] == (host.connections[k], probes[k]);
        assert(found_ready(entries[ready]));
        assert(!found_dead(entries[ready]));
        assert(host.connections[k].id == entries[ready].0.id);
    } else {
        assert forall|i: int| 0 <= i < host.connections.len() implies {
            ||| !((#[trigger] host.connections[i]).sender is H2)
            ||| probes[i].liveness == H2Status::Dead
            ||| probes[i].readiness != H2Status::Ready
        } by {
            let entry = (host.connections[i], probes[i]);
            if !found_dead(entry) {
                assert(entries.contains(entry));
                let j = choose|j: int| 0 <= j < entries.len() && entries[j] == entry;
                assert(!found_ready(entries[j]));
            }
        }
    }
}

/// A connection is dead exactly where it speaks HTTP/2 and was found dead.
pub proof fn only_shared_connections_are_found_dead<H2, H1>(
    connection: PooledConnection<H2, H1>,
    probe: Probe,
)
    ensures
        found_dead((connection, probe)) <==> (connection.sender matches ConnectionSender::H2(_)
            && probe.liveness == H2Status::Dead),
{
}

/// A connection that was opened joins the others behind them, under the next ID, and is no
/// longer being opened. An HTTP/1.1 connection is checked out from the start, and an HTTP/2
/// connection can be shared at once. The first connection decides the protocol of the host.
pub proof fn opened_connections_join_the_others<H2, H1>(
    host: HostView<H2, H1>,
    opened: OpenedConnection<H2, H1>,
    is_first: bool,
)
    requires
        host.opening_count > 0,
        host.next_id < usize::MAX,
    ensures
        ({
            let after = with_connection(host, opened, is_first);
            let last = after.connections.last();
            &&& after.connections.len() == host.connections.len() + 1
            &&& forall|i: int|
                0 <= i < host.connections.len() ==> #[trigger] after.connections[i]
                    == host.connections[i]
            &&& last.id == host.next_id
            &&& match opened {
                OpenedConnection::H2(sender) => last.sender == ConnectionSender::<H2, H1>::H2(
                    sender,
                ),
                OpenedConnection::H1(_) => last.sender == ConnectionSender::<H2, H1>::H1(None),
            }
            &&& after.opening_count + 1 == host.opening_count
            &&& after.next_id == host.next_id + 1
            &&& !is_first ==> after.protocol == host.protocol
            &&& is_first ==> (after.protocol == NegotiatedProtocol::Http2 <==> opened is H2)
        }),
{
}

/// What is returned goes to the HTTP/1.1 connection with its own ID, which is idle again,
/// and to no other. A shared connection stays as it is.
pub proof fn returned_senders_go_to_their_connection<H2, H1>(
    host: HostView<H2, H1>,
    id: usize,
    sender: PoolHandleSender<H2, H1>,
)
    ensures
        ({
            let after = finished(host, id, sender, true);
            &&& after.connections.len() == host.connections.len()
            &&& after.protocol == host.protocol
            &&& after.opening_count == host.opening_count
            &&& after.next_id == host.next_id
            &&& sender is H2 ==> after == host
            &&& sender matches PoolHandleSender::H1(own) ==> forall|i: int|
                0 <= i < host.connections.len() ==> {
                    let c = #[trigger] host.connections[i];
                    &&& c.id == id && c.sender is H1 ==> after.connections[i] == PooledConnection {
                        id,
                        sender: ConnectionSender::<H2, H1>::H1(Some(own)),
                    }
                    &&& c.id != id || c.sender is H2 ==> after.connections[i] == c
                }
        }),
{
}

/// Removing a connection changes nothing of its host but the connections.
pub proof fn removal_changes_connections_alone<H2, H1>(
    host: HostView<H2, H1>,
    id: usize,
    sender: PoolHandleSender<H2, H1>,
)
    ensures
        ({
            let after = finished(host, id, sender, false);
            &&& after.protocol == host.protocol
            &&& after.opening_count == host.opening_count
            &&& after.next_id == host.next_id
            &&& after.connections.len() <= host.connections.len()
        }),
{
    without_id_bounds(host.connections, id);
}

} // verus!
