use core::time::Duration;

use vstd::prelude::*;

use crate::atomic_enum::{AtomicEnum, AtomicEnumValue};
use crate::broadcast::WsIoServerNamespaceBroadcastOperator;
use crate::codec::{wire_bytes, WsIoPacketCodec};
use crate::connection::{connection_step_allowed, ConnectionState};
use crate::error::WsIoError;
use crate::idset::{id_set_clone, id_set_contents, id_set_difference_with, id_set_insert,
    id_set_len, id_set_new, id_set_remove};
use crate::namespace::{conn_state_stored, conn_state_updated, conn_states_unchanged,
    NamespaceStatus, WsIoServerNamespace};
use crate::packet::{opt_bytes_view, packet_type_code, WsIoPacket, WsIoPacketType};
use crate::stdspecs::duration_from_secs;

verus! {

/// The lifecycle states of the whole server runtime.
#[derive(Clone, Copy, Debug, PartialEq, Eq, Structural)]
pub enum WsIoServerStatus {
    Running,
    Stopping,
    Stopped,
}

impl AtomicEnumValue for WsIoServerStatus {
    fn eq_value(self, other: Self) -> (r: bool)
        ensures
            r == (self == other),
    {
        self == other
    }
}

/// The server configuration: handshake and handler timeouts, the fan-out
/// concurrency cap, the default codec, and the mount path.
pub struct WsIoServerConfig {
    pub broadcast_concurrency_limit: usize,
    pub init_request_handler_timeout: Duration,
    pub init_response_handler_timeout: Duration,
    pub init_response_timeout: Duration,
    pub middleware_execution_timeout: Duration,
    pub on_close_handler_timeout: Duration,
    pub on_connect_handler_timeout: Duration,
    pub packet_codec: WsIoPacketCodec,
    pub request_path: String,
}

/// Builds a server, starting from sensible defaults.
pub struct WsIoServerBuilder {
    pub config: WsIoServerConfig,
}

impl WsIoServerBuilder {
    /// The defaults: a fan-out cap of 512, JSON packets, the `/ws.io`
    /// mount path, and the standard handshake and handler timeouts.
    pub fn new() -> (r: Self)
        ensures
            r.config.broadcast_concurrency_limit == 512,
            r.config.packet_codec == WsIoPacketCodec::SerdeJson,
            r.config.request_path@ == "/ws.io"@,
            r.config.init_request_handler_timeout == duration_from_secs(3),
            r.config.init_response_handler_timeout == duration_from_secs(3),
            r.config.init_response_timeout == duration_from_secs(5),
            r.config.middleware_execution_timeout == duration_from_secs(2),
            r.config.on_close_handler_timeout == duration_from_secs(2),
            r.config.on_connect_handler_timeout == duration_from_secs(3),
    {
        Self {
            config: WsIoServerConfig {
                broadcast_concurrency_limit: 512,
                init_request_handler_timeout: Duration::from_secs(3),
                init_response_handler_timeout: Duration::from_secs(3),
                init_response_timeout: Duration::from_secs(5),
                middleware_execution_timeout: Duration::from_secs(2),
                on_close_handler_timeout: Duration::from_secs(2),
                on_connect_handler_timeout: Duration::from_secs(3),
                packet_codec: WsIoPacketCodec::SerdeJson,
                request_path: "/ws.io".to_owned(),
            },
        }
    }

    /// Caps how many fan-out sends run at once during a broadcast.
    pub fn broadcast_concurrency_limit(self, broadcast_concurrency_limit: usize) -> (r: Self)
        ensures
            r.config.broadcast_concurrency_limit == broadcast_concurrency_limit,
            r.config == (WsIoServerConfig { broadcast_concurrency_limit, ..self.config }),
    {
        let mut b = self;
        b.config.broadcast_concurrency_limit = broadcast_concurrency_limit;
        b
    }

    /// Bounds the user init-request handler.
    pub fn init_request_handler_timeout(self, duration: Duration) -> (r: Self)
        ensures
            r.config == (WsIoServerConfig { init_request_handler_timeout: duration, ..self.config }),
    {
        let mut b = self;
        b.config.init_request_handler_timeout = duration;
        b
    }

    /// Bounds the user init-response handler.
    pub fn init_response_handler_timeout(self, duration: Duration) -> (r: Self)
        ensures
            r.config == (WsIoServerConfig {
                init_response_handler_timeout: duration,
                ..self.config
            }),
    {
        let mut b = self;
        b.config.init_response_handler_timeout = duration;
        b
    }

    /// Bounds the wait for the client `Init` packet.
    pub fn init_response_timeout(self, duration: Duration) -> (r: Self)
        ensures
            r.config == (WsIoServerConfig { init_response_timeout: duration, ..self.config }),
    {
        let mut b = self;
        b.config.init_response_timeout = duration;
        b
    }

    /// Bounds the middleware run during activation.
    pub fn middleware_execution_timeout(self, duration: Duration) -> (r: Self)
        ensures
            r.config == (WsIoServerConfig { middleware_execution_timeout: duration, ..self.config }),
    {
        let mut b = self;
        b.config.middleware_execution_timeout = duration;
        b
    }

    /// Bounds the per-connection close handler.
    pub fn on_close_handler_timeout(self, duration: Duration) -> (r: Self)
        ensures
            r.config == (WsIoServerConfig { on_close_handler_timeout: duration, ..self.config }),
    {
        let mut b = self;
        b.config.on_close_handler_timeout = duration;
        b
    }

    /// Bounds the connect handler run during activation.
    pub fn on_connect_handler_timeout(self, duration: Duration) -> (r: Self)
        ensures
            r.config == (WsIoServerConfig { on_connect_handler_timeout: duration, ..self.config }),
    {
        let mut b = self;
        b.config.on_connect_handler_timeout = duration;
        b
    }

    /// Selects the default packet codec for new namespaces.
    pub fn packet_codec(self, packet_codec: WsIoPacketCodec) -> (r: Self)
        ensures
            r.config == (WsIoServerConfig { packet_codec, ..self.config }),
    {
        let mut b = self;
        b.config.packet_codec = packet_codec;
        b
    }

    /// Sets the mount path the server answers upgrades on; every other
    /// configuration field stays as it was.
    pub fn request_path(self, request_path: &str) -> (r: Self)
        ensures
            r.config.request_path@ == request_path@,
            r.config.broadcast_concurrency_limit == self.config.broadcast_concurrency_limit,
            r.config.packet_codec == self.config.packet_codec,
            r.config.init_request_handler_timeout == self.config.init_request_handler_timeout,
            r.config.init_response_handler_timeout == self.config.init_response_handler_timeout,
            r.config.init_response_timeout == self.config.init_response_timeout,
            r.config.middleware_execution_timeout == self.config.middleware_execution_timeout,
            r.config.on_close_handler_timeout == self.config.on_close_handler_timeout,
            r.config.on_connect_handler_timeout == self.config.on_connect_handler_timeout,
    {
        let mut b = self;
        b.config.request_path = request_path.to_owned();
        b
    }

    /// A fresh running server with no namespaces and no connections.
    pub fn build(self) -> (r: WsIoServer)
        ensures
            r.wf(),
            r.config == self.config,
            r.status.current() == WsIoServerStatus::Running,
            r.namespaces@.len() == 0,
            r.global_ids() == Set::<u64>::empty(),
            r.next_connection_id == 0,
    {
        WsIoServer {
            config: self.config,
            status: AtomicEnum::new(WsIoServerStatus::Running),
            namespaces: Vec::new(),
            connection_ids: id_set_new(),
            next_connection_id: 0,
        }
    }
}

/// The server runtime model: its namespaces, the set of every active
/// connection id across them, the id allocator and the lifecycle status.
pub struct WsIoServer {
    pub config: WsIoServerConfig,
    pub status: AtomicEnum<WsIoServerStatus>,
    pub namespaces: Vec<WsIoServerNamespace>,
    pub connection_ids: roaring::RoaringTreemap,
    pub next_connection_id: u64,
}

impl WsIoServer {
    /// The global set of active connection ids.
    pub open spec fn global_ids(self) -> Set<u64> {
        id_set_contents(self.connection_ids)
    }

    /// Whether a namespace mounted at `path` exists.
    pub open spec fn spec_has_namespace(self, path: Seq<char>) -> bool {
        exists|a: int| 0 <= a < self.namespaces@.len() && self.namespaces@[a].path@ == path
    }

    /// Well-formed server state.
    ///
    /// Every namespace is well formed and at rest (never mid-stop), paths
    /// are unique, the global id set is exactly the union of the
    /// namespaces' broadcast-visible ids, every record id is below the
    /// allocator, and records of different namespaces never share an id —
    /// so the union is disjoint.
    pub open spec fn wf(self) -> bool {
        &&& forall|a: int| 0 <= a < self.namespaces@.len() ==> (#[trigger] self.namespaces@[a]).wf()
        &&& forall|a: int|
            0 <= a < self.namespaces@.len() ==> (#[trigger] self.namespaces@[a]).status.current()
                != NamespaceStatus::Stopping
        &&& forall|a: int|
            0 <= a < self.namespaces@.len() && (#[trigger] self.namespaces@[a]).status.current()
                != NamespaceStatus::Running ==> self.namespaces@[a].connections@.len() == 0
                && self.namespaces@[a].member_ids() == Set::<u64>::empty()
        &&& forall|a: int, b: int|
            0 <= a < b < self.namespaces@.len() ==> self.namespaces@[a].path@
                != self.namespaces@[b].path@
        &&& self.global_ids().finite()
        &&& forall|x: u64|
            self.global_ids().contains(x) <==> exists|a: int|
                0 <= a < self.namespaces@.len() && (#[trigger] self.namespaces@[a]).member_ids().contains(
                    x,
                )
        &&& forall|a: int, i: int|
            #![trigger self.namespaces@[a].connections@[i]]
            0 <= a < self.namespaces@.len() && 0 <= i < self.namespaces@[a].connections@.len()
                ==> self.namespaces@[a].connections@[i].id < self.next_connection_id
        &&& forall|a: int, b: int, i: int, j: int|
            #![trigger self.namespaces@[a].connections@[i], self.namespaces@[b].connections@[j]]
            0 <= a < self.namespaces@.len() && 0 <= b < self.namespaces@.len() && a != b && 0 <= i
                < self.namespaces@[a].connections@.len() && 0 <= j
                < self.namespaces@[b].connections@.len() ==> self.namespaces@[a].connections@[i].id
                != self.namespaces@[b].connections@[j].id
    }

    /// A builder seeded with the defaults.
    pub fn builder() -> (r: WsIoServerBuilder)
        ensures
            r.config.broadcast_concurrency_limit == 512,
            r.config.packet_codec == WsIoPacketCodec::SerdeJson,
            r.config.request_path@ == "/ws.io"@,
    {
        WsIoServerBuilder::new()
    }

    /// The number of namespaces.
    pub fn namespace_count(&self) -> (r: usize)
        ensures
            r == self.namespaces@.len(),
    {
        self.namespaces.len()
    }

    /// The number of active connections across all namespaces.
    pub fn connection_count(&self) -> (r: u64)
        requires
            self.wf(),
        ensures
            r == self.global_ids().len(),
    {
        id_set_len(&self.connection_ids)
    }

    /// The index of the namespace mounted at `path`, if one exists.
    pub fn find_namespace(&self, path: &str) -> (r: Option<usize>)
        ensures
            match r {
                Some(a) => a < self.namespaces@.len() && self.namespaces@[a as int].path@ == path@,
                None => !self.spec_has_namespace(path@),
            },
    {
        let n = self.namespaces.len();
        let mut a: usize = 0;
        while a < n
            invariant
                a <= n,
                n == self.namespaces@.len(),
                forall|b: int| 0 <= b < a ==> self.namespaces@[b].path@ != path@,
            decreases n - a,
        {
            if self.namespaces[a].path().eq(path) {
                return Some(a);
            }
            a += 1;
        }
        None
    }

    /// The namespace mounted at `path`, if one exists.
    pub fn of(&self, path: &str) -> (r: Option<&WsIoServerNamespace>)
        ensures
            match r {
                Some(ns) => exists|a: int|
                    0 <= a < self.namespaces@.len() && self.namespaces@[a] == *ns && ns.path@
                        == path@,
                None => !self.spec_has_namespace(path@),
            },
    {
        match self.find_namespace(path) {
            Some(a) => Some(&self.namespaces[a]),
            None => None,
        }
    }

    /// Mounts a new namespace at `path` with the given codec; the path
    /// must not be taken. A duplicate path is a configuration error and
    /// changes nothing.
    pub fn new_namespace(&mut self, path: &str, packet_codec: WsIoPacketCodec) -> (r: Result<
        (),
        WsIoError,
    >)
        requires
            old(self).wf(),
        ensures
            final(self).wf(),
            r is Ok <==> !old(self).spec_has_namespace(path@),
            r matches Err(e) ==> e == WsIoError::Config && *final(self) == *old(self),
            r is Ok ==> ({
                let pre = *old(self);
                let post = *final(self);
                &&& post.namespaces@.len() == pre.namespaces@.len() + 1
                &&& (forall|b: int|
                    0 <= b < pre.namespaces@.len() ==> post.namespaces@[b] == pre.namespaces@[b])
                &&& post.namespaces@.last().path@ == path@
                &&& post.namespaces@.last().packet_codec == packet_codec
                &&& post.namespaces@.last().status.current() == NamespaceStatus::Running
                &&& post.namespaces@.last().connections@.len() == 0
                &&& post.namespaces@.last().member_ids() == Set::<u64>::empty()
                &&& post.global_ids() == pre.global_ids()
                &&& post.next_connection_id == pre.next_connection_id
                &&& post.status == pre.status
                &&& post.config == pre.config
            }),
    {
        if let Some(_) = self.find_namespace(path) {
            return Err(WsIoError::Config);
        }
        let ns = WsIoServerNamespace::new(
            path.to_owned(),
            packet_codec,
            self.config.broadcast_concurrency_limit,
        );
        self.namespaces.push(ns);
        proof {
            let pre = *old(self);
            let post = *self;
            let last = post.namespaces@.len() - 1;
            assert forall|x: u64|
                post.global_ids().contains(x) <==> exists|a: int|
                    0 <= a < post.namespaces@.len()
                        && (#[trigger] post.namespaces@[a]).member_ids().contains(x) by {
                if post.global_ids().contains(x) {
                    let a = choose|a: int|
                        0 <= a < pre.namespaces@.len()
                            && (#[trigger] pre.namespaces@[a]).member_ids().contains(x);
                    assert(post.namespaces@[a].member_ids().contains(x));
                }
                if exists|a: int|
                    0 <= a < post.namespaces@.len()
                        && (#[trigger] post.namespaces@[a]).member_ids().contains(x) {
                    let a = choose|a: int|
                        0 <= a < post.namespaces@.len()
                            && (#[trigger] post.namespaces@[a]).member_ids().contains(x);
                    if a < last {
                        assert(pre.namespaces@[a].member_ids().contains(x));
                    } else {
                        assert(false);
                    }
                }
            }
        }
        Ok(())
    }

    /// All namespaces except the one at `a` are untouched.
    pub open spec fn ns_replaced(pre: Self, post: Self, a: int) -> bool {
        &&& post.namespaces@.len() == pre.namespaces@.len()
        &&& forall|b: int|
            0 <= b < pre.namespaces@.len() && b != a ==> post.namespaces@[b] == pre.namespaces@[b]
    }

    /// Nothing observable about the server changed.
    pub open spec fn server_obs_eq(pre: Self, post: Self) -> bool {
        &&& post.config == pre.config
        &&& post.status == pre.status
        &&& post.next_connection_id == pre.next_connection_id
        &&& post.global_ids() == pre.global_ids()
        &&& post.namespaces@.len() == pre.namespaces@.len()
        &&& forall|b: int|
            0 <= b < pre.namespaces@.len() ==> WsIoServerNamespace::obs_eq(
                pre.namespaces@[b],
                post.namespaces@[b],
            )
    }

    /// Allocates a fresh globally unique id and creates its record, in
    /// state `Created`, in the namespace at `path`. Fails with a status
    /// error, changing nothing, when no such namespace exists.
    pub fn create_connection(&mut self, path: &str) -> (r: Result<u64, WsIoError>)
        requires
            old(self).wf(),
            old(self).next_connection_id < u64::MAX,
        ensures
            final(self).wf(),
            r is Err ==> *final(self) == *old(self),
            r matches Err(e) ==> e == WsIoError::Status,
            r is Err <==> !(exists|a: int|
                #![trigger old(self).namespaces@[a]]
                0 <= a < old(self).namespaces@.len() && old(self).namespaces@[a].path@ == path@
                    && old(self).namespaces@[a].status.current() == NamespaceStatus::Running),
            r is Ok ==> old(self).spec_has_namespace(path@),
            r matches Ok(id) ==> ({
                let pre = *old(self);
                let post = *final(self);
                &&& id == pre.next_connection_id
                &&& post.next_connection_id == pre.next_connection_id + 1
                &&& post.global_ids() == pre.global_ids()
                &&& post.status == pre.status
                &&& post.config == pre.config
                &&& exists|a: int|
                    #![trigger pre.namespaces@[a]]
                    {
                        let pns = pre.namespaces@[a];
                        let qns = post.namespaces@[a];
                        &&& 0 <= a < pre.namespaces@.len()
                        &&& pns.path@ == path@
                        &&& Self::ns_replaced(pre, post, a)
                        &&& qns.connections@.len() == pns.connections@.len() + 1
                        &&& (forall|j: int|
                            0 <= j < pns.connections@.len() ==> qns.connections@[j]
                                == pns.connections@[j])
                        &&& qns.connections@.last().id == id
                        &&& qns.connections@.last().state.current() == ConnectionState::Created
                        &&& qns.connections@.last().joined_rooms@.len() == 0
                        &&& qns.member_ids() == pns.member_ids()
                        &&& qns.rooms@ == pns.rooms@
                        &&& WsIoServerNamespace::same_config_and_status(pns, qns)
                    }
            }),
    {
        let a = match self.find_namespace(path) {
            Some(a) => a,
            None => {
                proof {
                    if exists|b: int|
                        #![trigger self.namespaces@[b]]
                        0 <= b < self.namespaces@.len() && self.namespaces@[b].path@ == path@
                            && self.namespaces@[b].status.current() == NamespaceStatus::Running {
                        let b = choose|b: int|
                            #![trigger self.namespaces@[b]]
                            0 <= b < self.namespaces@.len() && self.namespaces@[b].path@ == path@
                                && self.namespaces@[b].status.current() == NamespaceStatus::Running;
                        assert(self.spec_has_namespace(path@));
                    }
                }
                return Err(WsIoError::Status);
            },
        };
        if let Err(e) = self.namespaces[a].ensure_running() {
            proof {
            if exists|b: int|
                #![trigger old(self).namespaces@[b]]
                0 <= b < old(self).namespaces@.len() && old(self).namespaces@[b].path@ == path@
                    && old(self).namespaces@[b].status.current() == NamespaceStatus::Running {
                let b = choose|b: int|
                    #![trigger old(self).namespaces@[b]]
                    0 <= b < old(self).namespaces@.len() && old(self).namespaces@[b].path@ == path@
                        && old(self).namespaces@[b].status.current() == NamespaceStatus::Running;
                lemma_unique_namespace_path(*old(self), b, a as int);
                assert(false);
            }
            }
            return Err(e);
        }
        proof {
            assert(self.namespaces@[a as int].status.current() == NamespaceStatus::Running);
        }
        let id = self.next_connection_id;
        self.next_connection_id = id + 1;
        proof {
            // The fresh id is above every record id, so it is unused.
            assert(!self.namespaces@[a as int].spec_has_conn(id)) by {
                if self.namespaces@[a as int].spec_has_conn(id) {
                    let i = choose|i: int|
                        0 <= i < self.namespaces@[a as int].connections@.len()
                            && self.namespaces@[a as int].connections@[i].id == id;
                    assert(old(self).namespaces@[a as int].connections@[i].id < id);
                }
            }
        }
        self.namespaces[a].add_connection(id);
        proof {
            assert(old(self).namespaces@[a as int].status.current() == NamespaceStatus::Running);
            lemma_server_wf_after_record_growth(*old(self), *self, a as int, id);
        }
        Ok(id)
    }

    /// Moves the record for `id` in the namespace at `path` through one
    /// of the broadcast-invisible handshake steps. Fails with a status
    /// error, changing nothing observable, when the namespace or record
    /// is missing or the record is not in `from`.
    pub fn connection_transition(
        &mut self,
        path: &str,
        id: u64,
        from: ConnectionState,
        to: ConnectionState,
    ) -> (r: Result<(), WsIoError>)
        requires
            old(self).wf(),
            connection_step_allowed(from, to),
            to == ConnectionState::AwaitingInit || to == ConnectionState::Initiating || to
                == ConnectionState::Activating,
        ensures
            final(self).wf(),
            r is Err ==> Self::server_obs_eq(*old(self), *final(self)),
            r matches Err(e) ==> e == WsIoError::Status,
            r is Err <==> !(exists|a: int|
                #![trigger old(self).namespaces@[a]]
                0 <= a < old(self).namespaces@.len() && old(self).namespaces@[a].path@ == path@
                    && old(self).namespaces@[a].spec_conn_state_is(id, from)),
            r is Ok ==> ({
                let pre = *old(self);
                let post = *final(self);
                &&& post.global_ids() == pre.global_ids()
                &&& post.status == pre.status
                &&& post.config == pre.config
                &&& post.next_connection_id == pre.next_connection_id
                &&& exists|a: int|
                    #![trigger pre.namespaces@[a]]
                    {
                        let pns = pre.namespaces@[a];
                        let qns = post.namespaces@[a];
                        &&& 0 <= a < pre.namespaces@.len()
                        &&& pns.path@ == path@
                        &&& Self::ns_replaced(pre, post, a)
                        &&& pns.spec_conn_state_is(id, from)
                        &&& conn_state_updated(pns.connections@, qns.connections@, id, from, to)
                        &&& qns.member_ids() == pns.member_ids()
                        &&& qns.rooms@ == pns.rooms@
                        &&& WsIoServerNamespace::same_config_and_status(pns, qns)
                    }
            }),
    {
        let a = match self.find_namespace(path) {
            Some(a) => a,
            None => {
                proof {
                    if exists|b: int|
                        #![trigger self.namespaces@[b]]
                        0 <= b < self.namespaces@.len() && self.namespaces@[b].path@ == path@
                            && self.namespaces@[b].spec_conn_state_is(id, from) {
                        let b = choose|b: int|
                            #![trigger self.namespaces@[b]]
                            0 <= b < self.namespaces@.len() && self.namespaces@[b].path@ == path@
                                && self.namespaces@[b].spec_conn_state_is(id, from);
                        assert(self.spec_has_namespace(path@));
                    }
                }
                return Err(WsIoError::Status);
            },
        };
        let res = self.namespaces[a].connection_transition(id, from, to);
        proof {
            lemma_server_wf_after_ns_op(*old(self), *self, a as int);
            if res is Ok {
                assert(old(self).namespaces@[a as int].spec_conn_state_is(id, from));
            } else {
            if exists|b: int|
                #![trigger old(self).namespaces@[b]]
                0 <= b < old(self).namespaces@.len() && old(self).namespaces@[b].path@ == path@
                    && old(self).namespaces@[b].spec_conn_state_is(id, from) {
                let b = choose|b: int|
                    #![trigger old(self).namespaces@[b]]
                    0 <= b < old(self).namespaces@.len() && old(self).namespaces@[b].path@ == path@
                        && old(self).namespaces@[b].spec_conn_state_is(id, from);
                lemma_unique_namespace_path(*old(self), b, a as int);
                assert(false);
            }
            }
        }
        res
    }

    /// Whether the record for `id` in the namespace at `path` is in state
    /// `expected`: success exactly when such a namespace and record exist
    /// and the record is in that state; otherwise a status error.
    pub fn connection_ensure(&self, path: &str, id: u64, expected: ConnectionState) -> (r: Result<
        (),
        WsIoError,
    >)
        requires
            self.wf(),
        ensures
            r is Ok <==> exists|a: int|
                0 <= a < self.namespaces@.len() && self.namespaces@[a].path@ == path@
                    && (#[trigger] self.namespaces@[a]).spec_conn_state_is(id, expected),
            r matches Err(e) ==> e == WsIoError::Status,
    {
        let a = match self.find_namespace(path) {
            Some(a) => a,
            None => {
                proof {
                    if exists|b: int|
                        0 <= b < self.namespaces@.len() && self.namespaces@[b].path@ == path@
                            && (#[trigger] self.namespaces@[b]).spec_conn_state_is(id, expected) {
                        let b = choose|b: int|
                            0 <= b < self.namespaces@.len() && self.namespaces@[b].path@ == path@
                                && (#[trigger] self.namespaces@[b]).spec_conn_state_is(
                                id,
                                expected,
                            );
                        assert(self.spec_has_namespace(path@));
                    }
                }
                return Err(WsIoError::Status);
            },
        };
        let state = self.namespaces[a].connection_state(id);
        let matches_expected = match state {
            Some(st) => st.eq_value(expected),
            None => false,
        };
        proof {
            let aa = a as int;
            assert(self.namespaces@[aa].wf());
            // The record for an id is unique within the namespace, so the
            // queried state decides the predicate; and the path is unique
            // across namespaces, so this namespace decides the search.
            if !matches_expected && exists|b: int|
                0 <= b < self.namespaces@.len() && self.namespaces@[b].path@ == path@
                    && (#[trigger] self.namespaces@[b]).spec_conn_state_is(id, expected) {
                let b = choose|b: int|
                    0 <= b < self.namespaces@.len() && self.namespaces@[b].path@ == path@
                        && (#[trigger] self.namespaces@[b]).spec_conn_state_is(id, expected);
                assert(b == aa) by {
                    if b < aa {
                        assert(self.namespaces@[b].path@ != self.namespaces@[aa].path@);
                    } else if b > aa {
                        assert(self.namespaces@[aa].path@ != self.namespaces@[b].path@);
                    }
                }
                let i = choose|i: int|
                    0 <= i < self.namespaces@[aa].connections@.len()
                        && self.namespaces@[aa].connections@[i].id == id
                        && self.namespaces@[aa].connections@[i].state.current() == expected;
                match state {
                    Some(st) => {
                        let j = choose|j: int|
                            0 <= j < self.namespaces@[aa].connections@.len()
                                && self.namespaces@[aa].connections@[j].id == id
                                && self.namespaces@[aa].connections@[j].state.current() == st;
                        assert(i == j) by {
                            if i != j {
                                assert(self.namespaces@[aa].connections@[i].id
                                    != self.namespaces@[aa].connections@[j].id);
                            }
                        }
                        assert(false);
                    },
                    None => {
                        assert(self.namespaces@[aa].spec_has_conn(id));
                        assert(false);
                    },
                }
            }
            if matches_expected {
                assert(self.namespaces@[aa].spec_conn_state_is(id, expected));
            }
        }
        if matches_expected {
            Ok(())
        } else {
            Err(WsIoError::Status)
        }
    }

    /// Completes the handshake of the record for `id` in the namespace at
    /// `path`: `Activating` becomes `Ready`, the id becomes visible to
    /// that namespace's broadcasts and joins the global id set. Fails with
    /// a status error, changing nothing observable, otherwise.
    pub fn connection_mark_ready(&mut self, path: &str, id: u64) -> (r: Result<(), WsIoError>)
        requires
            old(self).wf(),
        ensures
            final(self).wf(),
            r is Err ==> Self::server_obs_eq(*old(self), *final(self)),
            r matches Err(e) ==> e == WsIoError::Status,
            r is Err <==> !(exists|a: int|
                #![trigger old(self).namespaces@[a]]
                0 <= a < old(self).namespaces@.len() && old(self).namespaces@[a].path@ == path@
                    && old(self).namespaces@[a].spec_conn_state_is(id, ConnectionState::Activating)),
            r is Ok ==> final(self).global_ids() == old(self).global_ids().insert(id),
            r is Ok ==> final(self).global_ids().contains(id),
            r is Ok ==> ({
                let pre = *old(self);
                let post = *final(self);
                &&& post.status == pre.status
                &&& post.config == pre.config
                &&& post.next_connection_id == pre.next_connection_id
                &&& exists|a: int|
                    #![trigger pre.namespaces@[a]]
                    {
                        let pns = pre.namespaces@[a];
                        let qns = post.namespaces@[a];
                        &&& 0 <= a < pre.namespaces@.len()
                        &&& pns.path@ == path@
                        &&& Self::ns_replaced(pre, post, a)
                        &&& pns.spec_conn_state_is(id, ConnectionState::Activating)
                        &&& conn_state_updated(
                            pns.connections@,
                            qns.connections@,
                            id,
                            ConnectionState::Activating,
                            ConnectionState::Ready,
                        )
                        &&& qns.member_ids() == pns.member_ids().insert(id)
                        &&& qns.rooms@ == pns.rooms@
                        &&& WsIoServerNamespace::same_config_and_status(pns, qns)
                    }
            }),
    {
        let a = match self.find_namespace(path) {
            Some(a) => a,
            None => {
                proof {
                    if exists|b: int|
                        #![trigger self.namespaces@[b]]
                        0 <= b < self.namespaces@.len() && self.namespaces@[b].path@ == path@
                            && self.namespaces@[b].spec_conn_state_is(id, ConnectionState::Activating) {
                        let b = choose|b: int|
                            #![trigger self.namespaces@[b]]
                            0 <= b < self.namespaces@.len() && self.namespaces@[b].path@ == path@
                                && self.namespaces@[b].spec_conn_state_is(id, ConnectionState::Activating);
                        assert(self.spec_has_namespace(path@));
                    }
                }
                return Err(WsIoError::Status);
            },
        };
        let res = self.namespaces[a].mark_connection_ready(id);
        match res {
            Ok(()) => {
                id_set_insert(&mut self.connection_ids, id);
                proof {
                    lemma_server_wf_after_member_insert(*old(self), *self, a as int, id);
                    assert(old(self).namespaces@[a as int].spec_conn_state_is(
                        id,
                        ConnectionState::Activating,
                    ));
                }
                Ok(())
            },
            Err(e) => {
                proof {
                    lemma_server_wf_after_ns_op(*old(self), *self, a as int);
            if exists|b: int|
                #![trigger old(self).namespaces@[b]]
                0 <= b < old(self).namespaces@.len() && old(self).namespaces@[b].path@ == path@
                    && old(self).namespaces@[b].spec_conn_state_is(id, ConnectionState::Activating) {
                let b = choose|b: int|
                    #![trigger old(self).namespaces@[b]]
                    0 <= b < old(self).namespaces@.len() && old(self).namespaces@[b].path@ == path@
                        && old(self).namespaces@[b].spec_conn_state_is(id, ConnectionState::Activating);
                lemma_unique_namespace_path(*old(self), b, a as int);
                assert(false);
            }
                }
                Err(e)
            },
        }
    }

    /// Marks the record `Closing` so a close frame can be sent; see the
    /// namespace-level operation. Returns whether to send the frame.
    pub fn connection_close(&mut self, path: &str, id: u64) -> (r: Result<bool, WsIoError>)
        requires
            old(self).wf(),
        ensures
            final(self).wf(),
            r is Err ==> Self::server_obs_eq(*old(self), *final(self)),
            r matches Err(e) ==> e == WsIoError::Status,
            r is Err <==> !(exists|a: int|
                #![trigger old(self).namespaces@[a]]
                0 <= a < old(self).namespaces@.len() && old(self).namespaces@[a].path@ == path@
                    && old(self).namespaces@[a].spec_has_conn(id)),
            r is Ok ==> ({
                let pre = *old(self);
                let post = *final(self);
                &&& post.global_ids() == pre.global_ids()
                &&& post.status == pre.status
                &&& post.config == pre.config
                &&& post.next_connection_id == pre.next_connection_id
            }),
            r matches Ok(sent) ==> exists|a: int|
                #![trigger old(self).namespaces@[a]]
                {
                    let pns = old(self).namespaces@[a];
                    let qns = final(self).namespaces@[a];
                    &&& 0 <= a < old(self).namespaces@.len()
                    &&& pns.path@ == path@
                    &&& Self::ns_replaced(*old(self), *final(self), a)
                    &&& (if sent {
                        conn_state_stored(
                            pns.connections@,
                            qns.connections@,
                            id,
                            ConnectionState::Closing,
                        ) && qns.member_ids() == pns.member_ids() && qns.rooms@ == pns.rooms@
                            && WsIoServerNamespace::same_config_and_status(pns, qns)
                    } else {
                        WsIoServerNamespace::obs_eq(pns, qns) && (pns.spec_conn_state_is(
                            id,
                            ConnectionState::Closing,
                        ) || pns.spec_conn_state_is(id, ConnectionState::Closed))
                    })
                },
    {
        let a = match self.find_namespace(path) {
            Some(a) => a,
            None => {
                proof {
                    if exists|b: int|
                        #![trigger self.namespaces@[b]]
                        0 <= b < self.namespaces@.len() && self.namespaces@[b].path@ == path@
                            && self.namespaces@[b].spec_has_conn(id) {
                        let b = choose|b: int|
                            #![trigger self.namespaces@[b]]
                            0 <= b < self.namespaces@.len() && self.namespaces@[b].path@ == path@
                                && self.namespaces@[b].spec_has_conn(id);
                        assert(self.spec_has_namespace(path@));
                    }
                }
                return Err(WsIoError::Status);
            },
        };
        let res = self.namespaces[a].close_connection(id);
        proof {
            lemma_server_wf_after_ns_op(*old(self), *self, a as int);
            if res is Ok {
                assert(old(self).namespaces@[a as int].spec_has_conn(id));
            } else {
            if exists|b: int|
                #![trigger old(self).namespaces@[b]]
                0 <= b < old(self).namespaces@.len() && old(self).namespaces@[b].path@ == path@
                    && old(self).namespaces@[b].spec_has_conn(id) {
                let b = choose|b: int|
                    #![trigger old(self).namespaces@[b]]
                    0 <= b < old(self).namespaces@.len() && old(self).namespaces@[b].path@ == path@
                        && old(self).namespaces@[b].spec_has_conn(id);
                lemma_unique_namespace_path(*old(self), b, a as int);
                assert(false);
            }
            }
        }
        res
    }

    /// Tears down the record for `id` in the namespace at `path`: it
    /// leaves every room, the namespace's broadcast set, the global id
    /// set, and the record list. Fails with a status error, changing
    /// nothing observable, when the namespace or record is missing.
    pub fn connection_cleanup(&mut self, path: &str, id: u64) -> (r: Result<(), WsIoError>)
        requires
            old(self).wf(),
        ensures
            final(self).wf(),
            r is Err ==> Self::server_obs_eq(*old(self), *final(self)),
            r matches Err(e) ==> e == WsIoError::Status,
            r is Err <==> !(exists|a: int|
                #![trigger old(self).namespaces@[a]]
                0 <= a < old(self).namespaces@.len() && old(self).namespaces@[a].path@ == path@
                    && old(self).namespaces@[a].spec_has_conn(id)),
            r is Ok ==> final(self).global_ids() == old(self).global_ids().remove(id),
            r is Ok ==> ({
                let pre = *old(self);
                let post = *final(self);
                &&& post.status == pre.status
                &&& post.config == pre.config
                &&& post.next_connection_id == pre.next_connection_id
                &&& exists|a: int|
                    #![trigger pre.namespaces@[a]]
                    {
                        let pns = pre.namespaces@[a];
                        let qns = post.namespaces@[a];
                        &&& 0 <= a < pre.namespaces@.len()
                        &&& pns.path@ == path@
                        &&& Self::ns_replaced(pre, post, a)
                        &&& pns.spec_has_conn(id)
                        &&& !qns.spec_has_conn(id)
                        &&& qns.member_ids() == pns.member_ids().remove(id)
                        &&& (forall|n: Seq<char>, x: u64|
                            qns.spec_room_has(n, x) <==> (pns.spec_room_has(n, x) && x != id))
                        &&& WsIoServerNamespace::same_config_and_status(pns, qns)
                    }
            }),
    {
        let a = match self.find_namespace(path) {
            Some(a) => a,
            None => {
                proof {
                    if exists|b: int|
                        #![trigger self.namespaces@[b]]
                        0 <= b < self.namespaces@.len() && self.namespaces@[b].path@ == path@
                            && self.namespaces@[b].spec_has_conn(id) {
                        let b = choose|b: int|
                            #![trigger self.namespaces@[b]]
                            0 <= b < self.namespaces@.len() && self.namespaces@[b].path@ == path@
                                && self.namespaces@[b].spec_has_conn(id);
                        assert(self.spec_has_namespace(path@));
                    }
                }
                return Err(WsIoError::Status);
            },
        };
        let res = self.namespaces[a].cleanup_connection(id);
        match res {
            Ok(()) => {
                id_set_remove(&mut self.connection_ids, id);
                proof {
                    lemma_server_wf_after_member_remove(*old(self), *self, a as int, id);
                    assert(old(self).namespaces@[a as int].spec_has_conn(id));
                }
                Ok(())
            },
            Err(e) => {
                proof {
                    lemma_server_wf_after_ns_op(*old(self), *self, a as int);
            if exists|b: int|
                #![trigger old(self).namespaces@[b]]
                0 <= b < old(self).namespaces@.len() && old(self).namespaces@[b].path@ == path@
                    && old(self).namespaces@[b].spec_has_conn(id) {
                let b = choose|b: int|
                    #![trigger old(self).namespaces@[b]]
                    0 <= b < old(self).namespaces@.len() && old(self).namespaces@[b].path@ == path@
                        && old(self).namespaces@[b].spec_has_conn(id);
                lemma_unique_namespace_path(*old(self), b, a as int);
                assert(false);
            }
                }
                Err(e)
            },
        }
    }

    /// Adds the connection to a room of its namespace; see the
    /// namespace-level operation.
    pub fn connection_join(&mut self, path: &str, id: u64, room_name: &str) -> (r: Result<
        (),
        WsIoError,
    >)
        requires
            old(self).wf(),
        ensures
            final(self).wf(),
            r is Err ==> Self::server_obs_eq(*old(self), *final(self)),
            r matches Err(e) ==> e == WsIoError::Status,
            r is Err <==> !(exists|a: int|
                #![trigger old(self).namespaces@[a]]
                0 <= a < old(self).namespaces@.len() && old(self).namespaces@[a].path@ == path@
                    && old(self).namespaces@[a].spec_has_conn(id)),
            r is Ok ==> final(self).global_ids() == old(self).global_ids() && exists|a: int|
                #![trigger old(self).namespaces@[a]]
                {
                    let pns = old(self).namespaces@[a];
                    let qns = final(self).namespaces@[a];
                    &&& 0 <= a < old(self).namespaces@.len()
                    &&& pns.path@ == path@
                    &&& Self::ns_replaced(*old(self), *final(self), a)
                    &&& pns.spec_has_conn(id)
                    &&& qns.member_ids() == pns.member_ids()
                    &&& conn_states_unchanged(pns.connections@, qns.connections@)
                    &&& (forall|n: Seq<char>, x: u64|
                        qns.spec_room_has(n, x) <==> (pns.spec_room_has(n, x) || (n == room_name@
                            && x == id)))
                    &&& (forall|x: u64, n: Seq<char>|
                        qns.spec_conn_joined(x, n) <==> (pns.spec_conn_joined(x, n) || (x == id
                            && n == room_name@)))
                    &&& WsIoServerNamespace::same_config_and_status(pns, qns)
                },
    {
        let a = match self.find_namespace(path) {
            Some(a) => a,
            None => {
                proof {
                    if exists|b: int|
                        #![trigger self.namespaces@[b]]
                        0 <= b < self.namespaces@.len() && self.namespaces@[b].path@ == path@
                            && self.namespaces@[b].spec_has_conn(id) {
                        let b = choose|b: int|
                            #![trigger self.namespaces@[b]]
                            0 <= b < self.namespaces@.len() && self.namespaces@[b].path@ == path@
                                && self.namespaces@[b].spec_has_conn(id);
                        assert(self.spec_has_namespace(path@));
                    }
                }
                return Err(WsIoError::Status);
            },
        };
        let res = self.namespaces[a].join(id, room_name);
        proof {
            lemma_server_wf_after_ns_op(*old(self), *self, a as int);
            if res is Ok {
                assert(old(self).namespaces@[a as int].spec_has_conn(id));
            } else {
            if exists|b: int|
                #![trigger old(self).namespaces@[b]]
                0 <= b < old(self).namespaces@.len() && old(self).namespaces@[b].path@ == path@
                    && old(self).namespaces@[b].spec_has_conn(id) {
                let b = choose|b: int|
                    #![trigger old(self).namespaces@[b]]
                    0 <= b < old(self).namespaces@.len() && old(self).namespaces@[b].path@ == path@
                        && old(self).namespaces@[b].spec_has_conn(id);
                lemma_unique_namespace_path(*old(self), b, a as int);
                assert(false);
            }
            }
        }
        res
    }

    /// Removes the connection from a room of its namespace; see the
    /// namespace-level operation.
    pub fn connection_leave(&mut self, path: &str, id: u64, room_name: &str) -> (r: Result<
        (),
        WsIoError,
    >)
        requires
            old(self).wf(),
        ensures
            final(self).wf(),
            r is Err ==> Self::server_obs_eq(*old(self), *final(self)),
            r matches Err(e) ==> e == WsIoError::Status,
            r is Err <==> !(exists|a: int|
                #![trigger old(self).namespaces@[a]]
                0 <= a < old(self).namespaces@.len() && old(self).namespaces@[a].path@ == path@
                    && old(self).namespaces@[a].spec_has_conn(id)),
            r is Ok ==> final(self).global_ids() == old(self).global_ids() && exists|a: int|
                #![trigger old(self).namespaces@[a]]
                {
                    let pns = old(self).namespaces@[a];
                    let qns = final(self).namespaces@[a];
                    &&& 0 <= a < old(self).namespaces@.len()
                    &&& pns.path@ == path@
                    &&& Self::ns_replaced(*old(self), *final(self), a)
                    &&& pns.spec_has_conn(id)
                    &&& qns.member_ids() == pns.member_ids()
                    &&& conn_states_unchanged(pns.connections@, qns.connections@)
                    &&& (forall|n: Seq<char>, x: u64|
                        qns.spec_room_has(n, x) <==> (pns.spec_room_has(n, x) && !(n == room_name@
                            && x == id)))
                    &&& (forall|x: u64, n: Seq<char>|
                        qns.spec_conn_joined(x, n) <==> (pns.spec_conn_joined(x, n) && !(x == id
                            && n == room_name@)))
                    &&& WsIoServerNamespace::same_config_and_status(pns, qns)
                },
    {
        let a = match self.find_namespace(path) {
            Some(a) => a,
            None => {
                proof {
                    if exists|b: int|
                        #![trigger self.namespaces@[b]]
                        0 <= b < self.namespaces@.len() && self.namespaces@[b].path@ == path@
                            && self.namespaces@[b].spec_has_conn(id) {
                        let b = choose|b: int|
                            #![trigger self.namespaces@[b]]
                            0 <= b < self.namespaces@.len() && self.namespaces@[b].path@ == path@
                                && self.namespaces@[b].spec_has_conn(id);
                        assert(self.spec_has_namespace(path@));
                    }
                }
                return Err(WsIoError::Status);
            },
        };
        let res = self.namespaces[a].leave(id, room_name);
        proof {
            lemma_server_wf_after_ns_op(*old(self), *self, a as int);
            if res is Ok {
                assert(old(self).namespaces@[a as int].spec_has_conn(id));
            } else {
            if exists|b: int|
                #![trigger old(self).namespaces@[b]]
                0 <= b < old(self).namespaces@.len() && old(self).namespaces@[b].path@ == path@
                    && old(self).namespaces@[b].spec_has_conn(id) {
                let b = choose|b: int|
                    #![trigger old(self).namespaces@[b]]
                    0 <= b < old(self).namespaces@.len() && old(self).namespaces@[b].path@ == path@
                        && old(self).namespaces@[b].spec_has_conn(id);
                lemma_unique_namespace_path(*old(self), b, a as int);
                assert(false);
            }
            }
        }
        res
    }
}

/// One namespace's share of a server-wide broadcast: which namespace,
/// the encoded frame, and the ids to deliver it to.
#[derive(Debug)]
pub struct WsIoServerNamespaceEmitPlan {
    pub namespace_index: usize,
    pub message: Vec<u8>,
    pub targets: Vec<u64>,
}

impl WsIoServer {
    /// Plans a server-wide broadcast: one encoded frame and target list
    /// per namespace, in namespace order. A namespace that is not running
    /// has no broadcast-visible connections, so its target list is empty.
    /// Fails with a status error exactly when the server is not running;
    /// otherwise the call succeeds.
    pub fn emit(&self, event: &str, data: Option<Vec<u8>>) -> (r: Result<
        Vec<WsIoServerNamespaceEmitPlan>,
        WsIoError,
    >)
        requires
            self.wf(),
        ensures
            self.status.current() != WsIoServerStatus::Running <==> (r matches Err(e) && e
                == WsIoError::Status),
            self.status.current() == WsIoServerStatus::Running ==> r is Ok,
            r matches Ok(plans) ==> ({
                &&& plans@.len() == self.namespaces@.len()
                &&& forall|a: int|
                    #![trigger plans@[a]]
                    0 <= a < plans@.len() ==> ({
                        let plan = plans@[a];
                        &&& plan.namespace_index == a
                        &&& plan.message@ == wire_bytes(
                            self.namespaces@[a].packet_codec,
                            packet_type_code(WsIoPacketType::Event),
                            Some(event@),
                            opt_bytes_view(data),
                        )
                        &&& (forall|x: u64|
                            plan.targets@.contains(x) <==> self.namespaces@[a].member_ids().contains(
                                x,
                            ))
                        &&& (forall|i: int, j: int|
                            0 <= i < j < plan.targets@.len() ==> plan.targets@[i]
                                < plan.targets@[j])
                    })
            }),
    {
        if let Err(e) = self.status.ensure(WsIoServerStatus::Running) {
            return Err(e);
        }
        let mut plans: Vec<WsIoServerNamespaceEmitPlan> = Vec::new();
        let n = self.namespaces.len();
        let mut a: usize = 0;
        while a < n
            invariant
                a <= n,
                self.wf(),
                n == self.namespaces@.len(),
                plans@.len() == a,
                forall|p: int|
                    #![trigger plans@[p]]
                    0 <= p < plans@.len() ==> ({
                        let plan = plans@[p];
                        &&& plan.namespace_index == p
                        &&& plan.message@ == wire_bytes(
                            self.namespaces@[p].packet_codec,
                            packet_type_code(WsIoPacketType::Event),
                            Some(event@),
                            opt_bytes_view(data),
                        )
                        &&& (forall|x: u64|
                            plan.targets@.contains(x) <==> self.namespaces@[p].member_ids().contains(
                                x,
                            ))
                        &&& (forall|i: int, j: int|
                            0 <= i < j < plan.targets@.len() ==> plan.targets@[i]
                                < plan.targets@[j])
                    }),
            decreases n - a,
        {
            let op = WsIoServerNamespaceBroadcastOperator::new();
            let payload = clone_payload(&data);
            let packet = WsIoPacket::new_event(event, payload);
            let message = match self.namespaces[a].packet_codec.encode(&packet) {
                Ok(b) => b,
                Err(e) => {
                    proof {
                        assert(false);
                    }
                    return Err(e);
                },
            };
            proof {
                assert(self.namespaces@[a as int].wf());
            }
            let targets = op.resolve_targets(&self.namespaces[a]);
            proof {
                assert forall|x: u64|
                    targets@.contains(x) <==> self.namespaces@[a as int].member_ids().contains(
                    x,
                ) by {
                    assert(op.is_target(self.namespaces@[a as int], x)
                        == self.namespaces@[a as int].member_ids().contains(x));
                }
            }
            plans.push(WsIoServerNamespaceEmitPlan { namespace_index: a, message, targets });
            a += 1;
        }
        Ok(plans)
    }

    /// Shuts down and removes the namespace mounted at `path`; its
    /// connections leave the global id set. Without such a namespace
    /// nothing changes.
    pub fn remove_namespace(&mut self, path: &str)
        requires
            old(self).wf(),
        ensures
            final(self).wf(),
            !final(self).spec_has_namespace(path@),
            !old(self).spec_has_namespace(path@) ==> *final(self) == *old(self),
            old(self).spec_has_namespace(path@) ==> ({
                let pre = *old(self);
                let post = *final(self);
                &&& post.status == pre.status
                &&& post.config == pre.config
                &&& post.next_connection_id == pre.next_connection_id
                &&& exists|a: int|
                    #![trigger pre.namespaces@[a]]
                    0 <= a < pre.namespaces@.len() && pre.namespaces@[a].path@ == path@
                        && post.namespaces@ == pre.namespaces@.remove(a) && post.global_ids()
                        == pre.global_ids().difference(pre.namespaces@[a].member_ids())
            }),
    {
        let a = match self.find_namespace(path) {
            Some(a) => a,
            None => {
                return ;
            },
        };
        let removed = id_set_clone(&self.namespaces[a].connection_ids);
        id_set_difference_with(&mut self.connection_ids, &removed);
        self.namespaces[a].shutdown();
        self.namespaces.remove(a);
        proof {
            assert(self.namespaces@ =~= old(self).namespaces@.remove(a as int));
            lemma_server_wf_after_ns_removal(*old(self), *self, a as int);
            assert forall|b: int|
                0 <= b < self.namespaces@.len() implies self.namespaces@[b].path@ != path@ by {
                let m = if b < a as int {
                    b
                } else {
                    b + 1
                };
                assert(self.namespaces@[b] == old(self).namespaces@.remove(a as int)[b]);
                assert(old(self).namespaces@.remove(a as int)[b] == old(self).namespaces@[m]);
                if m != a as int {
                    assert(old(self).namespaces@[m].path@ != old(self).namespaces@[a as int].path@);
                }
            }
        }
    }

    /// Stops the whole server: every namespace shuts down (tearing down
    /// all of its connections), the global id set empties, and the status
    /// ends at `Stopped`. A server already stopped is left alone.
    pub fn shutdown(&mut self)
        requires
            old(self).wf(),
            old(self).status.current() != WsIoServerStatus::Stopping,
        ensures
            final(self).wf(),
            old(self).status.current() == WsIoServerStatus::Stopped ==> *final(self) == *old(self),
            old(self).status.current() == WsIoServerStatus::Running ==> ({
                let post = *final(self);
                &&& post.status.current() == WsIoServerStatus::Stopped
                &&& post.global_ids() == Set::<u64>::empty()
                &&& post.global_ids().len() == 0
                &&& post.namespaces@.len() == old(self).namespaces@.len()
                &&& forall|a: int|
                    0 <= a < post.namespaces@.len() ==> (#[trigger] post.namespaces@[a]).status.current()
                        == NamespaceStatus::Stopped
                        && post.namespaces@[a].connections@.len() == 0
            }),
    {
        if self.status.is(WsIoServerStatus::Stopped) {
            return ;
        }
        self.status.store(WsIoServerStatus::Stopping);
        let n = self.namespaces.len();
        let mut a: usize = 0;
        while a < n
            invariant
                a <= n,
                old(self).wf(),
                n == self.namespaces@.len(),
                n == old(self).namespaces@.len(),
                self.config == old(self).config,
                self.next_connection_id == old(self).next_connection_id,
                self.status.current() == WsIoServerStatus::Stopping,
                forall|b: int|
                    0 <= b < a ==> (#[trigger] self.namespaces@[b]).wf()
                        && self.namespaces@[b].status.current() == NamespaceStatus::Stopped
                        && self.namespaces@[b].connections@.len() == 0
                        && self.namespaces@[b].member_ids() == Set::<u64>::empty()
                        && self.namespaces@[b].path@ == old(self).namespaces@[b].path@,
                forall|b: int|
                    a <= b < n ==> self.namespaces@[b] == old(self).namespaces@[b],
                self.global_ids().finite(),
                forall|x: u64|
                    self.global_ids().contains(x) <==> exists|b: int|
                        a <= b < n && (#[trigger] old(self).namespaces@[b]).member_ids().contains(
                            x,
                        ),
            decreases n - a,
        {
            proof {
                assert(self.namespaces@[a as int] == old(self).namespaces@[a as int]);
                assert(old(self).namespaces@[a as int].wf());
                assert(old(self).namespaces@[a as int].status.current()
                    != NamespaceStatus::Stopping);
            }
            let removed = id_set_clone(&self.namespaces[a].connection_ids);
            id_set_difference_with(&mut self.connection_ids, &removed);
            self.namespaces[a].shutdown();
            proof {
                let pre = *old(self);
                let aa = a as int;
                assert(pre.namespaces@[aa].wf());
                assert forall|x: u64|
                    self.global_ids().contains(x) <==> exists|b: int|
                        aa + 1 <= b < n && (#[trigger] pre.namespaces@[b]).member_ids().contains(
                            x,
                        ) by {
                    if self.global_ids().contains(x) {
                        let b = choose|b: int|
                            aa <= b < n && (#[trigger] pre.namespaces@[b]).member_ids().contains(x);
                        assert(b != aa);
                    }
                    if exists|b: int|
                        aa + 1 <= b < n && (#[trigger] pre.namespaces@[b]).member_ids().contains(
                            x,
                        ) {
                        let b = choose|b: int|
                            aa + 1 <= b < n
                                && (#[trigger] pre.namespaces@[b]).member_ids().contains(x);
                        assert(aa <= b < n && pre.namespaces@[b].member_ids().contains(x));
                        // x is not a member of the namespace at `a`: member
                        // ids have records, and records never share an id
                        // across namespaces.
                        if pre.namespaces@[aa].member_ids().contains(x) {
                            assert(pre.namespaces@[b].wf());
                            assert(pre.namespaces@[aa].spec_has_conn(x));
                            assert(pre.namespaces@[b].spec_has_conn(x));
                            let i = choose|i: int|
                                0 <= i < pre.namespaces@[aa].connections@.len()
                                    && pre.namespaces@[aa].connections@[i].id == x;
                            let j = choose|j: int|
                                0 <= j < pre.namespaces@[b].connections@.len()
                                    && pre.namespaces@[b].connections@[j].id == x;
                            assert(pre.namespaces@[aa].connections@[i].id
                                != pre.namespaces@[b].connections@[j].id);
                            assert(false);
                        }
                    }
                }
            }
            a += 1;
        }
        proof {
            assert(self.global_ids() =~= Set::<u64>::empty()) by {
                assert forall|x: u64| !self.global_ids().contains(x) by {
                    if self.global_ids().contains(x) {
                        let b = choose|b: int|
                            n <= b < n && (#[trigger] old(
                                self,
                            ).namespaces@[b]).member_ids().contains(x);
                        assert(false);
                    }
                }
            }
        }
        self.status.store(WsIoServerStatus::Stopped);
        proof {
            let post = *self;
            assert forall|b: int, c: int|
                0 <= b < c < post.namespaces@.len() implies post.namespaces@[b].path@
                != post.namespaces@[c].path@ by {
                assert(old(self).namespaces@[b].path@ != old(self).namespaces@[c].path@);
            }
            assert forall|x: u64|
                post.global_ids().contains(x) <==> exists|b: int|
                    0 <= b < post.namespaces@.len()
                        && (#[trigger] post.namespaces@[b]).member_ids().contains(x) by {
                if exists|b: int|
                    0 <= b < post.namespaces@.len()
                        && (#[trigger] post.namespaces@[b]).member_ids().contains(x) {
                    let b = choose|b: int|
                        0 <= b < post.namespaces@.len()
                            && (#[trigger] post.namespaces@[b]).member_ids().contains(x);
                    assert(false);
                }
            }
            assert forall|b: int, c: int, i: int, j: int|
                #![trigger post.namespaces@[b].connections@[i], post.namespaces@[c].connections@[j]]
                0 <= b < post.namespaces@.len() && 0 <= c < post.namespaces@.len() && b != c && 0
                    <= i < post.namespaces@[b].connections@.len() && 0 <= j
                    < post.namespaces@[c].connections@.len() implies post.namespaces@[b].connections@[i].id
                != post.namespaces@[c].connections@[j].id by {
                assert(post.namespaces@[b].connections@.len() == 0);
            }
        }
    }
}

/// Copies an optional payload byte for byte.
fn clone_payload(data: &Option<Vec<u8>>) -> (r: Option<Vec<u8>>)
    ensures
        opt_bytes_view(r) == opt_bytes_view(*data),
{
    match data {
        Some(d) => {
            let mut v: Vec<u8> = Vec::new();
            let n = d.len();
            let mut i: usize = 0;
            while i < n
                invariant
                    i <= n,
                    n == d@.len(),
                    v@ == d@.take(i as int),
                decreases n - i,
            {
                v.push(d[i]);
                proof {
                    assert(d@.take(i + 1) == d@.take(i as int).push(d@[i as int]));
                }
                i += 1;
            }
            proof {
                assert(d@.take(n as int) == d@);
            }
            Some(v)
        },
        None => None,
    }
}

/// Namespace paths are unique, so two namespaces sharing a path are one.
proof fn lemma_unique_namespace_path(s: WsIoServer, a: int, b: int)
    requires
        s.wf(),
        0 <= a < s.namespaces@.len(),
        0 <= b < s.namespaces@.len(),
        s.namespaces@[a].path@ == s.namespaces@[b].path@,
    ensures
        a == b,
{
    if a < b {
        assert(s.namespaces@[a].path@ != s.namespaces@[b].path@);
    } else if b < a {
        assert(s.namespaces@[b].path@ != s.namespaces@[a].path@);
    }
}

/// Re-establishes server well-formedness after the namespace at `a`, shut
/// down and emptied, was removed together with its global ids.
proof fn lemma_server_wf_after_ns_removal(pre: WsIoServer, post: WsIoServer, a: int)
    requires
        pre.wf(),
        0 <= a < pre.namespaces@.len(),
        post.config == pre.config,
        post.status == pre.status,
        post.next_connection_id == pre.next_connection_id,
        id_set_contents(post.connection_ids) == id_set_contents(pre.connection_ids).difference(
            pre.namespaces@[a].member_ids(),
        ),
        post.namespaces@ == pre.namespaces@.remove(a),
    ensures
        post.wf(),
{
    assert forall|b: int|
        0 <= b < post.namespaces@.len() implies (#[trigger] post.namespaces@[b]).wf()
        && post.namespaces@[b].status.current() != NamespaceStatus::Stopping && (
    post.namespaces@[b].status.current() != NamespaceStatus::Running
        ==> post.namespaces@[b].connections@.len() == 0 && post.namespaces@[b].member_ids()
        == Set::<u64>::empty()) by {
        let m = if b < a {
            b
        } else {
            b + 1
        };
        assert(post.namespaces@[b] == pre.namespaces@[m]);
    }
    assert forall|b: int, c: int|
        0 <= b < c < post.namespaces@.len() implies post.namespaces@[b].path@
        != post.namespaces@[c].path@ by {
        let mb = if b < a {
            b
        } else {
            b + 1
        };
        let mc = if c < a {
            c
        } else {
            c + 1
        };
        assert(post.namespaces@[b] == pre.namespaces@[mb]);
        assert(post.namespaces@[c] == pre.namespaces@[mc]);
    }
    assert forall|x: u64|
        post.global_ids().contains(x) <==> exists|b: int|
            0 <= b < post.namespaces@.len()
                && (#[trigger] post.namespaces@[b]).member_ids().contains(x) by {
        if post.global_ids().contains(x) {
            let b = choose|b: int|
                0 <= b < pre.namespaces@.len()
                    && (#[trigger] pre.namespaces@[b]).member_ids().contains(x);
            assert(b != a);
            let pb = if b < a {
                b
            } else {
                b - 1
            };
            assert(post.namespaces@[pb] == pre.namespaces@[b]);
            assert(post.namespaces@[pb].member_ids().contains(x));
        }
        if exists|b: int|
            0 <= b < post.namespaces@.len()
                && (#[trigger] post.namespaces@[b]).member_ids().contains(x) {
            let b = choose|b: int|
                0 <= b < post.namespaces@.len()
                    && (#[trigger] post.namespaces@[b]).member_ids().contains(x);
            let m = if b < a {
                b
            } else {
                b + 1
            };
            assert(post.namespaces@[b] == pre.namespaces@[m]);
            assert(pre.namespaces@[m].member_ids().contains(x));
            assert(pre.global_ids().contains(x));
            // x is not among the removed namespace's members: records are
            // disjoint across namespaces.
            if pre.namespaces@[a].member_ids().contains(x) {
                assert(pre.namespaces@[a].spec_has_conn(x));
                assert(pre.namespaces@[m].spec_has_conn(x));
                let i = choose|i: int|
                    0 <= i < pre.namespaces@[a].connections@.len()
                        && pre.namespaces@[a].connections@[i].id == x;
                let j = choose|j: int|
                    0 <= j < pre.namespaces@[m].connections@.len()
                        && pre.namespaces@[m].connections@[j].id == x;
                assert(pre.namespaces@[a].connections@[i].id
                    != pre.namespaces@[m].connections@[j].id);
                assert(false);
            }
        }
    }
    assert forall|b: int, i: int|
        #![trigger post.namespaces@[b].connections@[i]]
        0 <= b < post.namespaces@.len() && 0 <= i
            < post.namespaces@[b].connections@.len() implies post.namespaces@[b].connections@[i].id
        < post.next_connection_id by {
        let m = if b < a {
            b
        } else {
            b + 1
        };
        assert(post.namespaces@[b] == pre.namespaces@[m]);
    }
    assert forall|b: int, c: int, i: int, j: int|
        #![trigger post.namespaces@[b].connections@[i], post.namespaces@[c].connections@[j]]
        0 <= b < post.namespaces@.len() && 0 <= c < post.namespaces@.len() && b != c && 0 <= i
            < post.namespaces@[b].connections@.len() && 0 <= j
            < post.namespaces@[c].connections@.len() implies post.namespaces@[b].connections@[i].id
        != post.namespaces@[c].connections@[j].id by {
        let mb = if b < a {
            b
        } else {
            b + 1
        };
        let mc = if c < a {
            c
        } else {
            c + 1
        };
        assert(post.namespaces@[b] == pre.namespaces@[mb]);
        assert(post.namespaces@[c] == pre.namespaces@[mc]);
    }
}

/// Re-establishes server well-formedness after an operation on the
/// namespace at `a` that did not change that namespace's broadcast set,
/// its record ids, its path or its status, nor the global set.
proof fn lemma_server_wf_after_ns_op(pre: WsIoServer, post: WsIoServer, a: int)
    requires
        pre.wf(),
        0 <= a < pre.namespaces@.len(),
        post.config == pre.config,
        post.status == pre.status,
        post.next_connection_id == pre.next_connection_id,
        id_set_contents(post.connection_ids) == id_set_contents(pre.connection_ids),
        post.namespaces@.len() == pre.namespaces@.len(),
        forall|b: int|
            0 <= b < pre.namespaces@.len() && b != a ==> post.namespaces@[b] == pre.namespaces@[b],
        post.namespaces@[a].wf(),
        post.namespaces@[a].status == pre.namespaces@[a].status,
        post.namespaces@[a].path@ == pre.namespaces@[a].path@,
        post.namespaces@[a].member_ids() == pre.namespaces@[a].member_ids(),
        post.namespaces@[a].connections@.len() == pre.namespaces@[a].connections@.len(),
        forall|i: int|
            0 <= i < pre.namespaces@[a].connections@.len()
                ==> post.namespaces@[a].connections@[i].id
                == pre.namespaces@[a].connections@[i].id,
    ensures
        post.wf(),
{
    assert forall|x: u64|
        post.global_ids().contains(x) <==> exists|b: int|
            0 <= b < post.namespaces@.len()
                && (#[trigger] post.namespaces@[b]).member_ids().contains(x) by {
        if post.global_ids().contains(x) {
            let b = choose|b: int|
                0 <= b < pre.namespaces@.len()
                    && (#[trigger] pre.namespaces@[b]).member_ids().contains(x);
            assert(post.namespaces@[b].member_ids().contains(x));
        }
        if exists|b: int|
            0 <= b < post.namespaces@.len()
                && (#[trigger] post.namespaces@[b]).member_ids().contains(x) {
            let b = choose|b: int|
                0 <= b < post.namespaces@.len()
                    && (#[trigger] post.namespaces@[b]).member_ids().contains(x);
            assert(pre.namespaces@[b].member_ids().contains(x));
        }
    }
    assert forall|b: int, i: int|
        #![trigger post.namespaces@[b].connections@[i]]
        0 <= b < post.namespaces@.len() && 0 <= i
            < post.namespaces@[b].connections@.len() implies post.namespaces@[b].connections@[i].id
        < post.next_connection_id by {
        assert(post.namespaces@[b].connections@[i].id == pre.namespaces@[b].connections@[i].id);
    }
    assert forall|b: int, c: int, i: int, j: int|
        #![trigger post.namespaces@[b].connections@[i], post.namespaces@[c].connections@[j]]
        0 <= b < post.namespaces@.len() && 0 <= c < post.namespaces@.len() && b != c && 0 <= i
            < post.namespaces@[b].connections@.len() && 0 <= j
            < post.namespaces@[c].connections@.len() implies post.namespaces@[b].connections@[i].id
        != post.namespaces@[c].connections@[j].id by {
        assert(post.namespaces@[b].connections@[i].id == pre.namespaces@[b].connections@[i].id);
        assert(post.namespaces@[c].connections@[j].id == pre.namespaces@[c].connections@[j].id);
    }
}

/// Re-establishes server well-formedness after a record in state
/// `Created` for the fresh id was appended to the namespace at `a` and
/// the allocator moved past it.
proof fn lemma_server_wf_after_record_growth(pre: WsIoServer, post: WsIoServer, a: int, id: u64)
    requires
        pre.wf(),
        0 <= a < pre.namespaces@.len(),
        pre.namespaces@[a].status.current() == NamespaceStatus::Running,
        id == pre.next_connection_id,
        post.config == pre.config,
        post.status == pre.status,
        post.next_connection_id == pre.next_connection_id + 1,
        id_set_contents(post.connection_ids) == id_set_contents(pre.connection_ids),
        post.namespaces@.len() == pre.namespaces@.len(),
        forall|b: int|
            0 <= b < pre.namespaces@.len() && b != a ==> post.namespaces@[b] == pre.namespaces@[b],
        post.namespaces@[a].wf(),
        post.namespaces@[a].status == pre.namespaces@[a].status,
        post.namespaces@[a].path@ == pre.namespaces@[a].path@,
        post.namespaces@[a].member_ids() == pre.namespaces@[a].member_ids(),
        post.namespaces@[a].connections@.len() == pre.namespaces@[a].connections@.len() + 1,
        forall|i: int|
            0 <= i < pre.namespaces@[a].connections@.len()
                ==> post.namespaces@[a].connections@[i] == pre.namespaces@[a].connections@[i],
        post.namespaces@[a].connections@.last().id == id,
    ensures
        post.wf(),
{
    assert forall|x: u64|
        post.global_ids().contains(x) <==> exists|b: int|
            0 <= b < post.namespaces@.len()
                && (#[trigger] post.namespaces@[b]).member_ids().contains(x) by {
        if post.global_ids().contains(x) {
            let b = choose|b: int|
                0 <= b < pre.namespaces@.len()
                    && (#[trigger] pre.namespaces@[b]).member_ids().contains(x);
            assert(post.namespaces@[b].member_ids().contains(x));
        }
        if exists|b: int|
            0 <= b < post.namespaces@.len()
                && (#[trigger] post.namespaces@[b]).member_ids().contains(x) {
            let b = choose|b: int|
                0 <= b < post.namespaces@.len()
                    && (#[trigger] post.namespaces@[b]).member_ids().contains(x);
            assert(pre.namespaces@[b].member_ids().contains(x));
        }
    }
    let last = pre.namespaces@[a].connections@.len() as int;
    assert forall|b: int, i: int|
        #![trigger post.namespaces@[b].connections@[i]]
        0 <= b < post.namespaces@.len() && 0 <= i
            < post.namespaces@[b].connections@.len() implies post.namespaces@[b].connections@[i].id
        < post.next_connection_id by {
        if b == a && i == last {
        } else {
            assert(post.namespaces@[b].connections@[i].id
                == pre.namespaces@[b].connections@[i].id);
        }
    }
    assert forall|b: int, c: int, i: int, j: int|
        #![trigger post.namespaces@[b].connections@[i], post.namespaces@[c].connections@[j]]
        0 <= b < post.namespaces@.len() && 0 <= c < post.namespaces@.len() && b != c && 0 <= i
            < post.namespaces@[b].connections@.len() && 0 <= j
            < post.namespaces@[c].connections@.len() implies post.namespaces@[b].connections@[i].id
        != post.namespaces@[c].connections@[j].id by {
        if b == a && i == last {
            assert(post.namespaces@[c].connections@[j].id
                == pre.namespaces@[c].connections@[j].id);
            assert(pre.namespaces@[c].connections@[j].id < id);
        } else if c == a && j == last {
            assert(post.namespaces@[b].connections@[i].id
                == pre.namespaces@[b].connections@[i].id);
            assert(pre.namespaces@[b].connections@[i].id < id);
        } else {
            assert(post.namespaces@[b].connections@[i].id
                == pre.namespaces@[b].connections@[i].id);
            assert(post.namespaces@[c].connections@[j].id
                == pre.namespaces@[c].connections@[j].id);
        }
    }
}

/// Re-establishes server well-formedness after `id`, a record of the
/// namespace at `a`, entered that namespace's broadcast set and the
/// global set.
proof fn lemma_server_wf_after_member_insert(pre: WsIoServer, post: WsIoServer, a: int, id: u64)
    requires
        pre.wf(),
        0 <= a < pre.namespaces@.len(),
        post.config == pre.config,
        post.status == pre.status,
        post.next_connection_id == pre.next_connection_id,
        id_set_contents(post.connection_ids) == id_set_contents(pre.connection_ids).insert(id),
        pre.namespaces@[a].spec_has_conn(id),
        post.namespaces@.len() == pre.namespaces@.len(),
        forall|b: int|
            0 <= b < pre.namespaces@.len() && b != a ==> post.namespaces@[b] == pre.namespaces@[b],
        post.namespaces@[a].wf(),
        post.namespaces@[a].status == pre.namespaces@[a].status,
        post.namespaces@[a].path@ == pre.namespaces@[a].path@,
        post.namespaces@[a].member_ids() == pre.namespaces@[a].member_ids().insert(id),
        post.namespaces@[a].connections@.len() == pre.namespaces@[a].connections@.len(),
        forall|i: int|
            0 <= i < pre.namespaces@[a].connections@.len()
                ==> post.namespaces@[a].connections@[i].id
                == pre.namespaces@[a].connections@[i].id,
    ensures
        post.wf(),
{
    assert(pre.namespaces@[a].status.current() == NamespaceStatus::Running) by {
        if pre.namespaces@[a].status.current() != NamespaceStatus::Running {
            assert(pre.namespaces@[a].connections@.len() == 0);
            let i = choose|i: int|
                0 <= i < pre.namespaces@[a].connections@.len()
                    && pre.namespaces@[a].connections@[i].id == id;
            assert(false);
        }
    }
    assert forall|x: u64|
        post.global_ids().contains(x) <==> exists|b: int|
            0 <= b < post.namespaces@.len()
                && (#[trigger] post.namespaces@[b]).member_ids().contains(x) by {
        if post.global_ids().contains(x) {
            if x == id {
                assert(post.namespaces@[a].member_ids().contains(x));
            } else {
                let b = choose|b: int|
                    0 <= b < pre.namespaces@.len()
                        && (#[trigger] pre.namespaces@[b]).member_ids().contains(x);
                assert(post.namespaces@[b].member_ids().contains(x));
            }
        }
        if exists|b: int|
            0 <= b < post.namespaces@.len()
                && (#[trigger] post.namespaces@[b]).member_ids().contains(x) {
            let b = choose|b: int|
                0 <= b < post.namespaces@.len()
                    && (#[trigger] post.namespaces@[b]).member_ids().contains(x);
            if x != id {
                assert(pre.namespaces@[b].member_ids().contains(x));
            }
        }
    }
    assert forall|b: int, i: int|
        #![trigger post.namespaces@[b].connections@[i]]
        0 <= b < post.namespaces@.len() && 0 <= i
            < post.namespaces@[b].connections@.len() implies post.namespaces@[b].connections@[i].id
        < post.next_connection_id by {
        assert(post.namespaces@[b].connections@[i].id == pre.namespaces@[b].connections@[i].id);
    }
    assert forall|b: int, c: int, i: int, j: int|
        #![trigger post.namespaces@[b].connections@[i], post.namespaces@[c].connections@[j]]
        0 <= b < post.namespaces@.len() && 0 <= c < post.namespaces@.len() && b != c && 0 <= i
            < post.namespaces@[b].connections@.len() && 0 <= j
            < post.namespaces@[c].connections@.len() implies post.namespaces@[b].connections@[i].id
        != post.namespaces@[c].connections@[j].id by {
        assert(post.namespaces@[b].connections@[i].id == pre.namespaces@[b].connections@[i].id);
        assert(post.namespaces@[c].connections@[j].id == pre.namespaces@[c].connections@[j].id);
    }
}

/// Re-establishes server well-formedness after `id`, previously a record
/// of the namespace at `a`, left that namespace entirely and the global
/// set with it.
proof fn lemma_server_wf_after_member_remove(pre: WsIoServer, post: WsIoServer, a: int, id: u64)
    requires
        pre.wf(),
        0 <= a < pre.namespaces@.len(),
        pre.namespaces@[a].spec_has_conn(id),
        post.config == pre.config,
        post.status == pre.status,
        post.next_connection_id == pre.next_connection_id,
        id_set_contents(post.connection_ids) == id_set_contents(pre.connection_ids).remove(id),
        post.namespaces@.len() == pre.namespaces@.len(),
        forall|b: int|
            0 <= b < pre.namespaces@.len() && b != a ==> post.namespaces@[b] == pre.namespaces@[b],
        post.namespaces@[a].wf(),
        post.namespaces@[a].status == pre.namespaces@[a].status,
        post.namespaces@[a].path@ == pre.namespaces@[a].path@,
        post.namespaces@[a].member_ids() == pre.namespaces@[a].member_ids().remove(id),
        forall|x: u64|
            post.namespaces@[a].spec_has_conn(x) <==> (pre.namespaces@[a].spec_has_conn(x) && x
                != id),
    ensures
        post.wf(),
{
    assert(pre.namespaces@[a].status.current() == NamespaceStatus::Running) by {
        if pre.namespaces@[a].status.current() != NamespaceStatus::Running {
            assert(pre.namespaces@[a].connections@.len() == 0);
            let i = choose|i: int|
                0 <= i < pre.namespaces@[a].connections@.len()
                    && pre.namespaces@[a].connections@[i].id == id;
            assert(false);
        }
    }
    assert forall|x: u64|
        post.global_ids().contains(x) <==> exists|b: int|
            0 <= b < post.namespaces@.len()
                && (#[trigger] post.namespaces@[b]).member_ids().contains(x) by {
        if post.global_ids().contains(x) {
            let b = choose|b: int|
                0 <= b < pre.namespaces@.len()
                    && (#[trigger] pre.namespaces@[b]).member_ids().contains(x);
            if b == a {
                assert(post.namespaces@[a].member_ids().contains(x));
            } else {
                assert(post.namespaces@[b].member_ids().contains(x));
            }
        }
        if exists|b: int|
            0 <= b < post.namespaces@.len()
                && (#[trigger] post.namespaces@[b]).member_ids().contains(x) {
            let b = choose|b: int|
                0 <= b < post.namespaces@.len()
                    && (#[trigger] post.namespaces@[b]).member_ids().contains(x);
            if b == a {
                assert(pre.namespaces@[a].member_ids().contains(x));
                assert(x != id);
            } else {
                assert(pre.namespaces@[b].member_ids().contains(x));
                // id cannot be a member of another namespace: its record
                // lives at `a` and record ids are disjoint across spaces.
                if x == id {
                    assert(pre.namespaces@[b].spec_has_conn(id));
                    let i = choose|i: int|
                        0 <= i < pre.namespaces@[a].connections@.len()
                            && pre.namespaces@[a].connections@[i].id == id;
                    let j = choose|j: int|
                        0 <= j < pre.namespaces@[b].connections@.len()
                            && pre.namespaces@[b].connections@[j].id == id;
                    assert(pre.namespaces@[a].connections@[i].id
                        != pre.namespaces@[b].connections@[j].id);
                    assert(false);
                }
            }
        }
    }
    assert forall|b: int, i: int|
        #![trigger post.namespaces@[b].connections@[i]]
        0 <= b < post.namespaces@.len() && 0 <= i
            < post.namespaces@[b].connections@.len() implies post.namespaces@[b].connections@[i].id
        < post.next_connection_id by {
        if b == a {
            assert(pre.namespaces@[a].spec_has_conn(post.namespaces@[b].connections@[i].id));
            let i2 = choose|i2: int|
                0 <= i2 < pre.namespaces@[a].connections@.len()
                    && pre.namespaces@[a].connections@[i2].id
                    == post.namespaces@[b].connections@[i].id;
            assert(pre.namespaces@[a].connections@[i2].id < pre.next_connection_id);
        }
    }
    assert forall|b: int, c: int, i: int, j: int|
        #![trigger post.namespaces@[b].connections@[i], post.namespaces@[c].connections@[j]]
        0 <= b < post.namespaces@.len() && 0 <= c < post.namespaces@.len() && b != c && 0 <= i
            < post.namespaces@[b].connections@.len() && 0 <= j
            < post.namespaces@[c].connections@.len() implies post.namespaces@[b].connections@[i].id
        != post.namespaces@[c].connections@[j].id by {
        let xb = post.namespaces@[b].connections@[i].id;
        let xc = post.namespaces@[c].connections@[j].id;
        if b == a {
            assert(post.namespaces@[a].spec_has_conn(xb)) by {
                assert(post.namespaces@[a].connections@[i].id == xb);
            }
            assert(pre.namespaces@[a].spec_has_conn(xb));
            let i2 = choose|i2: int|
                0 <= i2 < pre.namespaces@[a].connections@.len()
                    && pre.namespaces@[a].connections@[i2].id == xb;
            assert(pre.namespaces@[a].connections@[i2].id
                != pre.namespaces@[c].connections@[j].id);
        } else if c == a {
            assert(post.namespaces@[a].spec_has_conn(xc)) by {
                assert(post.namespaces@[a].connections@[j].id == xc);
            }
            assert(pre.namespaces@[a].spec_has_conn(xc));
            let j2 = choose|j2: int|
                0 <= j2 < pre.namespaces@[a].connections@.len()
                    && pre.namespaces@[a].connections@[j2].id == xc;
            assert(pre.namespaces@[b].connections@[i].id
                != pre.namespaces@[a].connections@[j2].id);
        } else {
            assert(pre.namespaces@[b].connections@[i].id
                != pre.namespaces@[c].connections@[j].id);
        }
    }
}


/// The global id set is the disjoint union of the namespaces' broadcast
/// sets: an id visible in one namespace is in the global set and in no
/// other namespace.
pub proof fn lemma_namespace_members_partition_global_ids(
    s: WsIoServer,
    a: int,
    b: int,
    x: u64,
)
    requires
        s.wf(),
        0 <= a < s.namespaces@.len(),
        0 <= b < s.namespaces@.len(),
        a != b,
        s.namespaces@[a].member_ids().contains(x),
    ensures
        s.global_ids().contains(x),
        !s.namespaces@[b].member_ids().contains(x),
{
    assert(s.namespaces@[a].member_ids().contains(x));
    assert(s.global_ids().contains(x));
    if s.namespaces@[b].member_ids().contains(x) {
        assert(s.namespaces@[a].wf());
        assert(s.namespaces@[b].wf());
        assert(s.namespaces@[a].spec_has_conn(x));
        assert(s.namespaces@[b].spec_has_conn(x));
        let i = choose|i: int|
            0 <= i < s.namespaces@[a].connections@.len() && s.namespaces@[a].connections@[i].id
                == x;
        let j = choose|j: int|
            0 <= j < s.namespaces@[b].connections@.len() && s.namespaces@[b].connections@[j].id
                == x;
        assert(s.namespaces@[a].connections@[i].id != s.namespaces@[b].connections@[j].id);
        assert(false);
    }
}

} // verus!
