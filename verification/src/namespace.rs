use vstd::prelude::*;

use crate::atomic_enum::{AtomicEnum, AtomicEnumValue};
use crate::codec::WsIoPacketCodec;
use crate::connection::{connection_step_allowed, ConnectionState, WsIoServerConnection};
use crate::error::WsIoError;
use crate::idset::{id_set_contents, id_set_insert, id_set_is_empty, id_set_len, id_set_new,
    id_set_remove};

verus! {

/// The lifecycle states of a namespace.
#[derive(Clone, Copy, Debug, PartialEq, Eq, Structural)]
pub enum NamespaceStatus {
    Running,
    Stopping,
    Stopped,
}

impl AtomicEnumValue for NamespaceStatus {
    fn eq_value(self, other: Self) -> (r: bool)
        ensures
            r == (self == other),
    {
        self == other
    }
}

/// A named set of connection ids within a namespace, used only for
/// broadcast targeting. Rooms own ids, never connections.
pub struct WsIoServerRoom {
    pub name: String,
    pub members: roaring::RoaringTreemap,
}

/// One logical endpoint of the server: the connection records that belong
/// to it, the set of ids visible to broadcasts, its rooms, its codec and
/// its lifecycle status.
///
/// `connections` holds a record for every connection from creation until
/// cleanup; `connection_ids` holds exactly the ids that have completed the
/// handshake (the "map" a broadcast resolves against). A connection enters
/// `connection_ids` at the step into `Ready` and leaves it at cleanup.
pub struct WsIoServerNamespace {
    pub path: String,
    pub packet_codec: WsIoPacketCodec,
    pub broadcast_concurrency_limit: usize,
    pub status: AtomicEnum<NamespaceStatus>,
    pub connections: Vec<WsIoServerConnection>,
    pub connection_ids: roaring::RoaringTreemap,
    pub rooms: Vec<WsIoServerRoom>,
}

impl WsIoServerNamespace {
    /// The ids visible to broadcasts.
    pub open spec fn member_ids(self) -> Set<u64> {
        id_set_contents(self.connection_ids)
    }

    /// Whether a record for `id` exists.
    pub open spec fn spec_has_conn(self, id: u64) -> bool {
        exists|i: int| 0 <= i < self.connections@.len() && self.connections@[i].id == id
    }

    /// Whether the record for `id` is in state `st`.
    pub open spec fn spec_conn_state_is(self, id: u64, st: ConnectionState) -> bool {
        exists|i: int|
            0 <= i < self.connections@.len() && self.connections@[i].id == id
                && self.connections@[i].state.current() == st
    }

    /// Whether a room named `name` exists.
    pub open spec fn spec_has_room(self, name: Seq<char>) -> bool {
        exists|a: int| 0 <= a < self.rooms@.len() && self.rooms@[a].name@ == name
    }

    /// Whether `x` is a member of the room named `name`.
    pub open spec fn spec_room_has(self, name: Seq<char>, x: u64) -> bool {
        exists|a: int|
            0 <= a < self.rooms@.len() && self.rooms@[a].name@ == name && id_set_contents(
                self.rooms@[a].members,
            ).contains(x)
    }

    /// Whether the record for `id` has `room` among its joined rooms.
    pub open spec fn spec_conn_joined(self, id: u64, room: Seq<char>) -> bool {
        exists|i: int|
            0 <= i < self.connections@.len() && self.connections@[i].id == id
                && self.connections@[i].spec_joined(room)
    }

    /// Everything observable about the namespace is unchanged.
    pub open spec fn obs_eq(pre: Self, post: Self) -> bool {
        &&& post.path@ == pre.path@
        &&& post.packet_codec == pre.packet_codec
        &&& post.broadcast_concurrency_limit == pre.broadcast_concurrency_limit
        &&& post.status == pre.status
        &&& post.connections@ == pre.connections@
        &&& id_set_contents(post.connection_ids) == id_set_contents(pre.connection_ids)
        &&& post.rooms@ == pre.rooms@
    }

    /// The configuration and status are unchanged.
    pub open spec fn same_config_and_status(pre: Self, post: Self) -> bool {
        &&& post.path@ == pre.path@
        &&& post.packet_codec == pre.packet_codec
        &&& post.broadcast_concurrency_limit == pre.broadcast_concurrency_limit
        &&& post.status == pre.status
    }

    /// Well-formed namespace state.
    ///
    /// Connection ids are unique. A `Ready` record is always visible to
    /// broadcasts, and a record that has not reached `Ready` (or has been
    /// torn down past `Closing`) never is. Every visible id has a record.
    /// Room names are unique, a room is never empty, its members are known
    /// connection ids, and membership agrees exactly with the records'
    /// joined-room names.
    pub open spec fn wf(self) -> bool {
        &&& forall|i: int, j: int|
            0 <= i < j < self.connections@.len() ==> self.connections@[i].id
                != self.connections@[j].id
        &&& self.member_ids().finite()
        &&& forall|i: int|
            0 <= i < self.connections@.len() && self.connections@[i].state.current()
                == ConnectionState::Ready ==> self.member_ids().contains(self.connections@[i].id)
        &&& forall|i: int|
            0 <= i < self.connections@.len() && self.connections@[i].state.current()
                != ConnectionState::Ready && self.connections@[i].state.current()
                != ConnectionState::Closing ==> !self.member_ids().contains(
                self.connections@[i].id,
            )
        &&& forall|x: u64| self.member_ids().contains(x) ==> self.spec_has_conn(x)
        &&& forall|a: int, b: int|
            0 <= a < b < self.rooms@.len() ==> self.rooms@[a].name@ != self.rooms@[b].name@
        &&& forall|a: int|
            0 <= a < self.rooms@.len() ==> id_set_contents(self.rooms@[a].members).finite()
        &&& forall|a: int|
            0 <= a < self.rooms@.len() ==> id_set_contents(self.rooms@[a].members).len() > 0
        &&& forall|a: int, x: u64|
            0 <= a < self.rooms@.len() && id_set_contents(self.rooms@[a].members).contains(x)
                ==> self.spec_has_conn(x)
        &&& forall|a: int, i: int|
            0 <= a < self.rooms@.len() && 0 <= i < self.connections@.len() ==> (id_set_contents(
                self.rooms@[a].members,
            ).contains(self.connections@[i].id) <==> self.connections@[i].spec_joined(
                self.rooms@[a].name@,
            ))
        &&& forall|i: int, k: int|
            0 <= i < self.connections@.len() && 0 <= k < self.connections@[i].joined_rooms@.len()
                ==> self.spec_has_room(self.connections@[i].joined_rooms@[k]@)
        &&& forall|i: int, k: int, l: int|
            0 <= i < self.connections@.len() && 0 <= k < l
                < self.connections@[i].joined_rooms@.len()
                ==> self.connections@[i].joined_rooms@[k]@
                != self.connections@[i].joined_rooms@[l]@
    }

    /// A fresh namespace: running, no connections, no rooms.
    pub fn new(path: String, packet_codec: WsIoPacketCodec, broadcast_concurrency_limit: usize) -> (r:
        Self)
        ensures
            r.wf(),
            r.path@ == path@,
            r.packet_codec == packet_codec,
            r.broadcast_concurrency_limit == broadcast_concurrency_limit,
            r.status.current() == NamespaceStatus::Running,
            r.connections@.len() == 0,
            r.member_ids() == Set::<u64>::empty(),
            r.rooms@.len() == 0,
    {
        Self {
            path,
            packet_codec,
            broadcast_concurrency_limit,
            status: AtomicEnum::new(NamespaceStatus::Running),
            connections: Vec::new(),
            connection_ids: id_set_new(),
            rooms: Vec::new(),
        }
    }

    /// The namespace path.
    pub fn path(&self) -> (r: &str)
        ensures
            r@ == self.path@,
    {
        self.path.as_str()
    }

    /// The number of connections visible to broadcasts.
    pub fn connection_count(&self) -> (r: u64)
        requires
            self.wf(),
        ensures
            r == self.member_ids().len(),
    {
        id_set_len(&self.connection_ids)
    }

    /// The index of the record for `id`, if one exists.
    fn find_connection(&self, id: u64) -> (r: Option<usize>)
        ensures
            match r {
                Some(i) => i < self.connections@.len() && self.connections@[i as int].id == id,
                None => !self.spec_has_conn(id),
            },
    {
        let n = self.connections.len();
        let mut i: usize = 0;
        while i < n
            invariant
                i <= n,
                n == self.connections@.len(),
                forall|j: int| 0 <= j < i ==> self.connections@[j].id != id,
            decreases n - i,
        {
            if self.connections[i].id == id {
                return Some(i);
            }
            i += 1;
        }
        None
    }

    /// The index of the room named `name`, if one exists.
    pub(crate) fn find_room(&self, name: &str) -> (r: Option<usize>)
        ensures
            match r {
                Some(a) => a < self.rooms@.len() && self.rooms@[a as int].name@ == name@,
                None => !self.spec_has_room(name@),
            },
    {
        let n = self.rooms.len();
        let mut a: usize = 0;
        while a < n
            invariant
                a <= n,
                n == self.rooms@.len(),
                forall|b: int| 0 <= b < a ==> self.rooms@[b].name@ != name@,
            decreases n - a,
        {
            if self.rooms[a].name.as_str().eq(name) {
                return Some(a);
            }
            a += 1;
        }
        None
    }

    /// The state of the record for `id`, if one exists.
    pub fn connection_state(&self, id: u64) -> (r: Option<ConnectionState>)
        ensures
            match r {
                Some(st) => self.spec_conn_state_is(id, st),
                None => !self.spec_has_conn(id),
            },
    {
        match self.find_connection(id) {
            Some(i) => Some(self.connections[i].state.get()),
            None => None,
        }
    }

    /// Creates the record for a new connection in state `Created`. It is
    /// not yet visible to broadcasts.
    pub fn add_connection(&mut self, id: u64)
        requires
            old(self).wf(),
            !old(self).spec_has_conn(id),
        ensures
            final(self).wf(),
            Self::same_config_and_status(*old(self), *final(self)),
            final(self).connections@.len() == old(self).connections@.len() + 1,
            forall|j: int|
                0 <= j < old(self).connections@.len() ==> final(self).connections@[j] == old(
                    self,
                ).connections@[j],
            final(self).connections@.last().id == id,
            final(self).connections@.last().state.current() == ConnectionState::Created,
            final(self).connections@.last().joined_rooms@.len() == 0,
            final(self).member_ids() == old(self).member_ids(),
            final(self).rooms@ == old(self).rooms@,
    {
        self.connections.push(WsIoServerConnection::new(id));
        proof {
            let pre = *old(self);
            let post = *self;
            assert forall|i: int|
                0 <= i < post.connections@.len() && post.connections@[i].state.current()
                    != ConnectionState::Ready && post.connections@[i].state.current()
                    != ConnectionState::Closing implies !post.member_ids().contains(
                post.connections@[i].id,
            ) by {
                if i < pre.connections@.len() {
                    assert(post.connections@[i] == pre.connections@[i]);
                } else {
                    if post.member_ids().contains(id) {
                        assert(pre.spec_has_conn(id));
                    }
                }
            }
            assert forall|x: u64| post.member_ids().contains(x) implies post.spec_has_conn(x) by {
                assert(pre.spec_has_conn(x));
                let i = choose|i: int|
                    0 <= i < pre.connections@.len() && pre.connections@[i].id == x;
                assert(post.connections@[i].id == x);
            }
            assert forall|a: int, x: u64|
                0 <= a < post.rooms@.len() && id_set_contents(post.rooms@[a].members).contains(
                    x,
                ) implies post.spec_has_conn(x) by {
                assert(pre.spec_has_conn(x));
                let i = choose|i: int|
                    0 <= i < pre.connections@.len() && pre.connections@[i].id == x;
                assert(post.connections@[i].id == x);
            }
            assert forall|a: int, i: int|
                0 <= a < post.rooms@.len() && 0 <= i < post.connections@.len() implies (
            id_set_contents(post.rooms@[a].members).contains(post.connections@[i].id)
                <==> post.connections@[i].spec_joined(post.rooms@[a].name@)) by {
                if i < pre.connections@.len() {
                    assert(post.connections@[i] == pre.connections@[i]);
                } else {
                    assert(post.connections@[i].joined_rooms@.len() == 0);
                    if id_set_contents(post.rooms@[a].members).contains(id) {
                        assert(pre.spec_has_conn(id));
                    }
                }
            }
        }
    }

    /// Moves the record for `id` from `from` to `to`, for the handshake
    /// steps that do not change broadcast visibility. Fails with a status
    /// error, changing nothing, when no such record exists or it is not in
    /// `from`.
    pub fn connection_transition(&mut self, id: u64, from: ConnectionState, to: ConnectionState) -> (r:
        Result<(), WsIoError>)
        requires
            old(self).wf(),
            connection_step_allowed(from, to),
            to == ConnectionState::AwaitingInit || to == ConnectionState::Initiating || to
                == ConnectionState::Activating,
        ensures
            final(self).wf(),
            r is Ok ==> old(self).spec_conn_state_is(id, from) && conn_state_updated(
                old(self).connections@,
                final(self).connections@,
                id,
                from,
                to,
            ) && Self::same_config_and_status(*old(self), *final(self)) && final(self).member_ids()
                == old(self).member_ids() && final(self).rooms@ == old(self).rooms@,
            r is Err ==> Self::obs_eq(*old(self), *final(self)) && !old(self).spec_conn_state_is(
                id,
                from,
            ),
            r matches Err(e) ==> e == WsIoError::Status,
    {
        let i = match self.find_connection(id) {
            Some(i) => i,
            None => {
                return Err(WsIoError::Status);
            },
        };
        let res = self.connections[i].state.try_transition(from, to);
        proof {
            let pre = *old(self);
            let post = *self;
            let ii = i as int;
            if pre.connections@[ii].state.current() == from {
                assert(post.connections@[ii].state.current() == to);
                assert(post.connections@[ii].id == id);
                assert(conn_state_updated(pre.connections@, post.connections@, id, from, to));
                assert_ns_wf_after_state_change(pre, post, ii);
            } else {
                assert(post.connections@[ii] == pre.connections@[ii]);
                assert(post.connections@ =~= pre.connections@);
                lemma_wf_transfer(pre, post);
                assert forall|j: int|
                    0 <= j < pre.connections@.len() && pre.connections@[j].id == id implies j
                    == ii by {
                    if j != ii {
                        assert(pre.connections@[j].id != pre.connections@[ii].id);
                    }
                }
            }
        }
        res
    }

    /// Completes the handshake: moves the record for `id` from
    /// `Activating` to `Ready` and makes it visible to broadcasts. This is
    /// the only step that adds an id to `connection_ids`. Fails with a
    /// status error, changing nothing, when no such record exists or it is
    /// not `Activating`.
    pub fn mark_connection_ready(&mut self, id: u64) -> (r: Result<(), WsIoError>)
        requires
            old(self).wf(),
        ensures
            final(self).wf(),
            r is Ok ==> old(self).spec_conn_state_is(id, ConnectionState::Activating)
                && conn_state_updated(
                old(self).connections@,
                final(self).connections@,
                id,
                ConnectionState::Activating,
                ConnectionState::Ready,
            ) && Self::same_config_and_status(*old(self), *final(self)) && final(self).member_ids()
                == old(self).member_ids().insert(id) && final(self).rooms@ == old(self).rooms@,
            r is Ok ==> final(self).member_ids().contains(id),
            r is Err ==> Self::obs_eq(*old(self), *final(self)) && !old(self).spec_conn_state_is(
                id,
                ConnectionState::Activating,
            ),
            r matches Err(e) ==> e == WsIoError::Status,
    {
        let i = match self.find_connection(id) {
            Some(i) => i,
            None => {
                return Err(WsIoError::Status);
            },
        };
        let res = self.connections[i].state.try_transition(
            ConnectionState::Activating,
            ConnectionState::Ready,
        );
        match res {
            Ok(()) => {
                id_set_insert(&mut self.connection_ids, id);
                proof {
                    let pre = *old(self);
                    let post = *self;
                    let ii = i as int;
                    assert(conn_state_updated(
                        pre.connections@,
                        post.connections@,
                        id,
                        ConnectionState::Activating,
                        ConnectionState::Ready,
                    ));
                    assert forall|j: int|
                        0 <= j < post.connections@.len() && post.connections@[j].state.current()
                            != ConnectionState::Ready && post.connections@[j].state.current()
                            != ConnectionState::Closing implies !post.member_ids().contains(
                        post.connections@[j].id,
                    ) by {
                        assert(post.connections@[j] == pre.connections@[j]);
                        if post.connections@[j].id == id {
                            assert(pre.connections@[j].id == pre.connections@[ii].id);
                            assert(j == ii);
                        }
                    }
                    assert forall|x: u64| post.member_ids().contains(x) implies post.spec_has_conn(
                        x,
                    ) by {
                        if x == id {
                            assert(post.connections@[ii].id == id);
                        } else {
                            assert(pre.spec_has_conn(x));
                            let j = choose|j: int|
                                0 <= j < pre.connections@.len() && pre.connections@[j].id == x;
                            assert(post.connections@[j].id == x);
                        }
                    }
                    assert_ns_wf_rooms_after_state_change(pre, post, ii);
                }
                Ok(())
            },
            Err(e) => {
                proof {
                    let pre = *old(self);
                    let ii = i as int;
                    assert(self.connections@[ii] == pre.connections@[ii]);
                    assert(self.connections@ =~= pre.connections@);
                    lemma_wf_transfer(pre, *self);
                    assert forall|j: int|
                        0 <= j < pre.connections@.len() && pre.connections@[j].id == id implies j
                        == ii by {
                        if j != ii {
                            assert(pre.connections@[j].id != pre.connections@[ii].id);
                        }
                    }
                }
                Err(e)
            },
        }
    }

    /// Whether the namespace status is `Running`; otherwise a status error.
    pub fn ensure_running(&self) -> (r: Result<(), WsIoError>)
        ensures
            r is Ok <==> self.status.current() == NamespaceStatus::Running,
            r matches Err(e) ==> e == WsIoError::Status,
    {
        self.status.ensure(NamespaceStatus::Running)
    }

    /// Adds the connection to a room: the id enters the room's member set
    /// (the room is created when absent) and the room's name is recorded
    /// among the record's joined rooms. Joining a room twice changes
    /// nothing more. Fails with a status error, changing nothing, when no
    /// record for `id` exists.
    pub fn join(&mut self, id: u64, room_name: &str) -> (r: Result<(), WsIoError>)
        requires
            old(self).wf(),
        ensures
            final(self).wf(),
            r is Err ==> Self::obs_eq(*old(self), *final(self)) && !old(self).spec_has_conn(id),
            r matches Err(e) ==> e == WsIoError::Status,
            r is Ok ==> old(self).spec_has_conn(id) && Self::same_config_and_status(
                *old(self),
                *final(self),
            ) && final(self).member_ids() == old(self).member_ids() && conn_states_unchanged(
                old(self).connections@,
                final(self).connections@,
            ),
            r is Ok ==> forall|n: Seq<char>, x: u64|
                final(self).spec_room_has(n, x) <==> (old(self).spec_room_has(n, x) || (n
                    == room_name@ && x == id)),
            r is Ok ==> forall|n: Seq<char>|
                final(self).spec_has_room(n) <==> (old(self).spec_has_room(n) || n == room_name@),
            r is Ok ==> forall|x: u64, n: Seq<char>|
                final(self).spec_conn_joined(x, n) <==> (old(self).spec_conn_joined(x, n) || (x
                    == id && n == room_name@)),
    {
        let i = match self.find_connection(id) {
            Some(i) => i,
            None => {
                return Err(WsIoError::Status);
            },
        };
        let already = match joined_search(&self.connections[i].joined_rooms, room_name) {
            Some(_) => true,
            None => false,
        };
        let (room_index, room_existed) = match self.find_room(room_name) {
            Some(a) => {
                id_set_insert(&mut self.rooms[a].members, id);
                (a, true)
            },
            None => {
                let mut members = id_set_new();
                id_set_insert(&mut members, id);
                self.rooms.push(WsIoServerRoom { name: room_name.to_owned(), members });
                (self.rooms.len() - 1, false)
            },
        };
        if !already {
            self.connections[i].joined_rooms.push(room_name.to_owned());
        }
        proof {
            lemma_join_effect(
                *old(self),
                *self,
                id,
                room_name@,
                i as int,
                room_index as int,
                already,
                room_existed,
            );
        }
        Ok(())
    }

    /// Removes the connection from a room: the id leaves the room's member
    /// set (a room left empty is deleted) and the name leaves the record's
    /// joined rooms. Leaving a room not joined changes nothing. Fails with
    /// a status error, changing nothing, when no record for `id` exists.
    pub fn leave(&mut self, id: u64, room_name: &str) -> (r: Result<(), WsIoError>)
        requires
            old(self).wf(),
        ensures
            final(self).wf(),
            r is Err ==> Self::obs_eq(*old(self), *final(self)) && !old(self).spec_has_conn(id),
            r matches Err(e) ==> e == WsIoError::Status,
            r is Ok ==> old(self).spec_has_conn(id) && Self::same_config_and_status(
                *old(self),
                *final(self),
            ) && final(self).member_ids() == old(self).member_ids() && conn_states_unchanged(
                old(self).connections@,
                final(self).connections@,
            ),
            r is Ok ==> forall|n: Seq<char>, x: u64|
                final(self).spec_room_has(n, x) <==> (old(self).spec_room_has(n, x) && !(n
                    == room_name@ && x == id)),
            r is Ok ==> forall|n: Seq<char>|
                final(self).spec_has_room(n) <==> (if n == room_name@ {
                    exists|x: u64| x != id && old(self).spec_room_has(n, x)
                } else {
                    old(self).spec_has_room(n)
                }),
            r is Ok ==> forall|x: u64, n: Seq<char>|
                final(self).spec_conn_joined(x, n) <==> (old(self).spec_conn_joined(x, n) && !(x
                    == id && n == room_name@)),
            r is Ok ==> exists|i: int|
                #![trigger old(self).connections@[i]]
                {
                    let prec = old(self).connections@;
                    let postc = final(self).connections@;
                    0 <= i < prec.len() && prec[i].id == id && postc[i].id == id
                        && postc[i].joined_rooms@.len() == prec[i].joined_rooms@.len() - (if prec[i].spec_joined(
                        room_name@,
                    ) {
                        1int
                    } else {
                        0int
                    })
                },
    {
        let i = match self.find_connection(id) {
            Some(i) => i,
            None => {
                return Err(WsIoError::Status);
            },
        };
        let ghost pre = *old(self);
        let mut room_dropped = false;
        let mut room_index: usize = 0;
        let room_found: bool;
        match self.find_room(room_name) {
            Some(a) => {
                room_found = true;
                room_index = a;
                id_set_remove(&mut self.rooms[a].members, id);
                if id_set_is_empty(&self.rooms[a].members) {
                    self.rooms.remove(a);
                    room_dropped = true;
                }
                proof {
                    if room_dropped {
                        assert(self.rooms@ == pre.rooms@.remove(a as int));
                    }
                }
            },
            None => {
                room_found = false;
            },
        }
        let joined_index = joined_search(&self.connections[i].joined_rooms, room_name);
        match joined_index {
            Some(k) => {
                self.connections[i].joined_rooms.remove(k);
            },
            None => {},
        }
        proof {
            lemma_leave_effect(
                pre,
                *self,
                id,
                room_name@,
                i as int,
                room_found,
                room_dropped,
                room_index as int,
                match joined_index {
                    Some(k) => k as int,
                    None => -1,
                },
            );
        }
        Ok(())
    }

    /// Marks the connection `Closing` so that a close frame can be sent;
    /// a connection already past `Closing` is left alone. Returns whether
    /// the close frame should be sent. The record stays visible until
    /// `cleanup_connection` runs. Fails with a status error, changing
    /// nothing, when no record for `id` exists.
    pub fn close_connection(&mut self, id: u64) -> (r: Result<bool, WsIoError>)
        requires
            old(self).wf(),
        ensures
            final(self).wf(),
            r is Err ==> Self::obs_eq(*old(self), *final(self)) && !old(self).spec_has_conn(id),
            r matches Err(e) ==> e == WsIoError::Status,
            r matches Ok(sent) ==> old(self).spec_has_conn(id) && (if sent {
                let prev = *old(self);
                let cur = *final(self);
                !prev.spec_conn_state_is(id, ConnectionState::Closing) && !prev.spec_conn_state_is(
                    id,
                    ConnectionState::Closed,
                ) && conn_state_stored(
                    prev.connections@,
                    cur.connections@,
                    id,
                    ConnectionState::Closing,
                ) && Self::same_config_and_status(prev, cur) && cur.member_ids()
                    == prev.member_ids() && cur.rooms@ == prev.rooms@
            } else {
                Self::obs_eq(*old(self), *final(self)) && (old(self).spec_conn_state_is(
                    id,
                    ConnectionState::Closing,
                ) || old(self).spec_conn_state_is(id, ConnectionState::Closed))
            }),
    {
        let i = match self.find_connection(id) {
            Some(i) => i,
            None => {
                return Err(WsIoError::Status);
            },
        };
        let st = self.connections[i].state.get();
        match st {
            ConnectionState::Closing | ConnectionState::Closed => Ok(false),
            _ => {
                self.connections[i].state.store(ConnectionState::Closing);
                proof {
                    let pre = *old(self);
                    let post = *self;
                    let ii = i as int;
                    assert forall|j: int|
                        0 <= j < post.connections@.len() && post.connections@[j].state.current()
                            == ConnectionState::Ready implies post.member_ids().contains(
                        post.connections@[j].id,
                    ) by {
                        assert(j != ii);
                        assert(post.connections@[j] == pre.connections@[j]);
                    }
                    assert forall|j: int|
                        0 <= j < post.connections@.len() && post.connections@[j].state.current()
                            != ConnectionState::Ready && post.connections@[j].state.current()
                            != ConnectionState::Closing implies !post.member_ids().contains(
                        post.connections@[j].id,
                    ) by {
                        assert(j != ii);
                        assert(post.connections@[j] == pre.connections@[j]);
                    }
                    assert forall|x: u64| post.member_ids().contains(x) implies post.spec_has_conn(
                        x,
                    ) by {
                        assert(pre.spec_has_conn(x));
                        let j = choose|j: int|
                            0 <= j < pre.connections@.len() && pre.connections@[j].id == x;
                        assert(post.connections@[j].id == x);
                    }
                    assert_ns_wf_rooms_after_state_change(pre, post, ii);
                }
                Ok(true)
            },
        }
    }

    /// Tears the connection down: the id leaves every room it joined
    /// (pruning rooms left empty), leaves the broadcast set, and the
    /// record disappears. Fails with a status error, changing nothing,
    /// when no record for `id` exists.
    pub fn cleanup_connection(&mut self, id: u64) -> (r: Result<(), WsIoError>)
        requires
            old(self).wf(),
        ensures
            final(self).wf(),
            r is Err ==> Self::obs_eq(*old(self), *final(self)) && !old(self).spec_has_conn(id),
            r matches Err(e) ==> e == WsIoError::Status,
            r is Ok ==> old(self).spec_has_conn(id) && Self::same_config_and_status(
                *old(self),
                *final(self),
            ),
            r is Ok ==> final(self).member_ids() == old(self).member_ids().remove(id),
            r is Ok ==> final(self).connections@.len() == old(self).connections@.len() - 1,
            r is Ok ==> forall|x: u64|
                final(self).spec_has_conn(x) <==> (old(self).spec_has_conn(x) && x != id),
            r is Ok ==> forall|x: u64, st: ConnectionState|
                x != id ==> (final(self).spec_conn_state_is(x, st) <==> old(
                    self,
                ).spec_conn_state_is(x, st)),
            r is Ok ==> forall|n: Seq<char>, x: u64|
                final(self).spec_room_has(n, x) <==> (old(self).spec_room_has(n, x) && x != id),
            r is Ok ==> forall|n: Seq<char>|
                final(self).spec_has_room(n) <==> exists|x: u64|
                    x != id && old(self).spec_room_has(n, x),
    {
        let i0 = match self.find_connection(id) {
            Some(i) => i,
            None => {
                return Err(WsIoError::Status);
            },
        };
        let ghost orig = *old(self);
        loop
            invariant
                self.wf(),
                WsIoServerNamespace::same_config_and_status(orig, *self),
                self.member_ids() == orig.member_ids(),
                conn_states_unchanged(orig.connections@, self.connections@),
                0 <= i0 < self.connections@.len(),
                self.connections@[i0 as int].id == id,
                orig.connections@[i0 as int].id == id,
                forall|n: Seq<char>, x: u64|
                    self.spec_room_has(n, x) <==> (orig.spec_room_has(n, x) && (x != id
                        || self.spec_conn_joined(id, n))),
                forall|x: u64, n: Seq<char>|
                    x != id ==> (self.spec_conn_joined(x, n) <==> orig.spec_conn_joined(x, n)),
                forall|x: u64, n: Seq<char>|
                    self.spec_conn_joined(x, n) ==> orig.spec_conn_joined(x, n),
            ensures
                self.wf(),
                WsIoServerNamespace::same_config_and_status(orig, *self),
                self.member_ids() == orig.member_ids(),
                conn_states_unchanged(orig.connections@, self.connections@),
                0 <= i0 < self.connections@.len(),
                self.connections@[i0 as int].id == id,
                self.connections@[i0 as int].joined_rooms@.len() == 0,
                forall|n: Seq<char>, x: u64|
                    self.spec_room_has(n, x) <==> (orig.spec_room_has(n, x) && (x != id
                        || self.spec_conn_joined(id, n))),
                forall|x: u64, n: Seq<char>|
                    x != id ==> (self.spec_conn_joined(x, n) <==> orig.spec_conn_joined(x, n)),
            decreases self.connections@[i0 as int].joined_rooms@.len(),
        {
            let jlen = self.connections[i0].joined_rooms.len();
            if jlen == 0 {
                break ;
            }
            let name = self.connections[i0].joined_rooms[jlen - 1].clone();
            proof {
                assert(self.connections@[i0 as int].spec_joined(name@));
                assert(self.spec_conn_joined(id, name@));
            }
            let ghost before = *self;
            let res = self.leave(id, name.as_str());
            proof {
                assert(res is Ok) by {
                    if res is Err {
                        assert(before.spec_has_conn(id));
                    }
                }
                let wit = choose|i: int|
                    #![trigger before.connections@[i]]
                    {
                        let prec = before.connections@;
                        let postc = self.connections@;
                        0 <= i < prec.len() && prec[i].id == id && postc[i].id == id
                            && postc[i].joined_rooms@.len() == prec[i].joined_rooms@.len() - (
                        if prec[i].spec_joined(name@) {
                            1int
                        } else {
                            0int
                        })
                    };
                assert(wit == i0) by {
                    if wit != i0 {
                        assert(before.connections@[wit].id == before.connections@[i0 as int].id);
                    }
                }
                assert(self.connections@[i0 as int].joined_rooms@.len()
                    < before.connections@[i0 as int].joined_rooms@.len());
                assert forall|n: Seq<char>, x: u64|
                    self.spec_room_has(n, x) <==> (orig.spec_room_has(n, x) && (x != id
                        || self.spec_conn_joined(id, n))) by {
                    assert(self.spec_room_has(n, x) <==> (before.spec_room_has(n, x) && !(n
                        == name@ && x == id)));
                    assert(self.spec_conn_joined(id, n) <==> (before.spec_conn_joined(id, n) && !(n
                        == name@)));
                }
            }
        }
        let ghost stage = *self;
        id_set_remove(&mut self.connection_ids, id);
        self.connections.remove(i0);
        proof {
            lemma_cleanup_final(orig, stage, *self, id, i0 as int);
        }
        Ok(())
    }

    /// Stops the namespace: every remaining connection is torn down, all
    /// rooms disappear, and the status ends at `Stopped`. A namespace
    /// already `Stopped` is left alone.
    pub fn shutdown(&mut self)
        requires
            old(self).wf(),
            old(self).status.current() != NamespaceStatus::Stopping,
        ensures
            final(self).wf(),
            old(self).status.current() == NamespaceStatus::Stopped ==> Self::obs_eq(
                *old(self),
                *final(self),
            ),
            old(self).status.current() == NamespaceStatus::Running ==> ({
                let prev = *old(self);
                let cur = *final(self);
                cur.status.current() == NamespaceStatus::Stopped && cur.connections@.len() == 0
                    && cur.member_ids() == Set::<u64>::empty() && cur.rooms@.len() == 0
                    && cur.path@ == prev.path@ && cur.packet_codec == prev.packet_codec
                    && cur.broadcast_concurrency_limit == prev.broadcast_concurrency_limit
            }),
    {
        if self.status.is(NamespaceStatus::Stopped) {
            return ;
        }
        self.status.store(NamespaceStatus::Stopping);
        proof {
            lemma_wf_transfer(*old(self), *self);
        }
        loop
            invariant
                self.wf(),
                self.path@ == old(self).path@,
                self.packet_codec == old(self).packet_codec,
                self.broadcast_concurrency_limit == old(self).broadcast_concurrency_limit,
                self.status.current() == NamespaceStatus::Stopping,
            ensures
                self.wf(),
                self.path@ == old(self).path@,
                self.packet_codec == old(self).packet_codec,
                self.broadcast_concurrency_limit == old(self).broadcast_concurrency_limit,
                self.status.current() == NamespaceStatus::Stopping,
                self.connections@.len() == 0,
            decreases self.connections@.len(),
        {
            let n = self.connections.len();
            if n == 0 {
                break ;
            }
            let id = self.connections[n - 1].id;
            let ghost before = *self;
            let res = self.cleanup_connection(id);
            proof {
                assert(res is Ok) by {
                    if res is Err {
                        assert(before.spec_has_conn(id));
                    }
                }
            }
        }
        proof {
            assert(self.member_ids() =~= Set::<u64>::empty()) by {
                assert forall|x: u64| !self.member_ids().contains(x) by {
                    if self.member_ids().contains(x) {
                        assert(self.spec_has_conn(x));
                        let j = choose|j: int|
                            0 <= j < self.connections@.len() && self.connections@[j].id == x;
                        assert(false);
                    }
                }
            }
            assert(self.rooms@.len() == 0) by {
                if self.rooms@.len() > 0 {
                    assert(id_set_contents(self.rooms@[0].members).len() > 0);
                    let x = lemma_len_pos_member(id_set_contents(self.rooms@[0].members));
                    assert(self.spec_has_conn(x));
                    let j = choose|j: int|
                        0 <= j < self.connections@.len() && self.connections@[j].id == x;
                    assert(false);
                }
            }
        }
        let ghost drained = *self;
        self.status.store(NamespaceStatus::Stopped);
        proof {
            lemma_wf_transfer(drained, *self);
        }
    }
}

/// The record for `id` was set to state `to`; every other record, and the
/// record's id and joined rooms, stayed as they were.
pub open spec fn conn_state_stored(
    pre: Seq<WsIoServerConnection>,
    post: Seq<WsIoServerConnection>,
    id: u64,
    to: ConnectionState,
) -> bool {
    exists|i: int|
        #![trigger pre[i]]
        0 <= i < pre.len() && pre[i].id == id && post.len() == pre.len() && (forall|j: int|
            0 <= j < pre.len() && j != i ==> post[j] == pre[j]) && post[i].id == id
            && post[i].state.current() == to && post[i].joined_rooms == pre[i].joined_rooms
}

/// The final step of `cleanup_connection`: after the loop has emptied the
/// record's joined rooms (`stage`), the id leaves the broadcast set and
/// the record leaves the record list.
#[verifier::rlimit(100)]
proof fn lemma_cleanup_final(
    orig: WsIoServerNamespace,
    stage: WsIoServerNamespace,
    post: WsIoServerNamespace,
    id: u64,
    i0: int,
)
    requires
        orig.wf(),
        stage.wf(),
        WsIoServerNamespace::same_config_and_status(orig, stage),
        stage.member_ids() == orig.member_ids(),
        conn_states_unchanged(orig.connections@, stage.connections@),
        0 <= i0 < stage.connections@.len(),
        stage.connections@[i0].id == id,
        orig.connections@[i0].id == id,
        stage.connections@[i0].joined_rooms@.len() == 0,
        forall|n: Seq<char>, x: u64|
            stage.spec_room_has(n, x) <==> (orig.spec_room_has(n, x) && (x != id
                || stage.spec_conn_joined(id, n))),
        forall|x: u64, n: Seq<char>|
            x != id ==> (stage.spec_conn_joined(x, n) <==> orig.spec_conn_joined(x, n)),
        WsIoServerNamespace::same_config_and_status(stage, post),
        id_set_contents(post.connection_ids) == id_set_contents(stage.connection_ids).remove(id),
        post.connections@ == stage.connections@.remove(i0),
        post.rooms@ == stage.rooms@,
    ensures
        post.wf(),
        WsIoServerNamespace::same_config_and_status(orig, post),
        post.member_ids() == orig.member_ids().remove(id),
        post.connections@.len() == orig.connections@.len() - 1,
        forall|x: u64| post.spec_has_conn(x) <==> (orig.spec_has_conn(x) && x != id),
        forall|x: u64, st: ConnectionState|
            x != id ==> (post.spec_conn_state_is(x, st) <==> orig.spec_conn_state_is(x, st)),
        forall|n: Seq<char>, x: u64|
            post.spec_room_has(n, x) <==> (orig.spec_room_has(n, x) && x != id),
        forall|n: Seq<char>|
            post.spec_has_room(n) <==> exists|x: u64| x != id && orig.spec_room_has(n, x),
{
    let stconn = stage.connections@;
    let postconn = post.connections@;
    // No joined name is left on the record, so no room holds the id.
    assert forall|n: Seq<char>| !stage.spec_conn_joined(id, n) by {
        if stage.spec_conn_joined(id, n) {
            let j = choose|j: int|
                0 <= j < stconn.len() && stconn[j].id == id && stconn[j].spec_joined(n);
            assert(j == i0) by {
                if j != i0 {
                    assert(stconn[j].id == stconn[i0].id);
                }
            }
            assert(false);
        }
    }
    assert forall|n: Seq<char>, x: u64|
        stage.spec_room_has(n, x) <==> (orig.spec_room_has(n, x) && x != id) by {}
    // Records: removing index i0 maps the rest.
    assert forall|x: u64| post.spec_has_conn(x) <==> (stage.spec_has_conn(x) && x != id) by {
        if post.spec_has_conn(x) {
            let j = choose|j: int| 0 <= j < postconn.len() && postconn[j].id == x;
            let m = if j < i0 {
                j
            } else {
                j + 1
            };
            assert(postconn[j] == stconn[m]);
            assert(stage.spec_has_conn(x));
            if x == id {
                assert(stconn[m].id == stconn[i0].id);
                assert(m == i0);
                assert(false);
            }
        }
        if stage.spec_has_conn(x) && x != id {
            let j = choose|j: int| 0 <= j < stconn.len() && stconn[j].id == x;
            assert(j != i0);
            let b = if j < i0 {
                j
            } else {
                j - 1
            };
            assert(postconn[b] == stconn[j]);
            assert(post.spec_has_conn(x));
        }
    }
    assert forall|x: u64, st: ConnectionState|
        x != id implies (post.spec_conn_state_is(x, st) <==> stage.spec_conn_state_is(x, st)) by {
        if post.spec_conn_state_is(x, st) {
            let j = choose|j: int|
                0 <= j < postconn.len() && postconn[j].id == x && postconn[j].state.current()
                    == st;
            let m = if j < i0 {
                j
            } else {
                j + 1
            };
            assert(postconn[j] == stconn[m]);
            assert(stage.spec_conn_state_is(x, st));
        }
        if stage.spec_conn_state_is(x, st) {
            let j = choose|j: int|
                0 <= j < stconn.len() && stconn[j].id == x && stconn[j].state.current() == st;
            assert(j != i0);
            let b = if j < i0 {
                j
            } else {
                j - 1
            };
            assert(postconn[b] == stconn[j]);
            assert(post.spec_conn_state_is(x, st));
        }
    }
    assert forall|x: u64, st: ConnectionState|
        x != id implies (stage.spec_conn_state_is(x, st) <==> orig.spec_conn_state_is(x, st)) by {
        if stage.spec_conn_state_is(x, st) {
            let j = choose|j: int|
                0 <= j < stconn.len() && stconn[j].id == x && stconn[j].state.current() == st;
            assert(orig.connections@[j].id == x && orig.connections@[j].state.current() == st);
        }
        if orig.spec_conn_state_is(x, st) {
            let j = choose|j: int|
                0 <= j < orig.connections@.len() && orig.connections@[j].id == x
                    && orig.connections@[j].state.current() == st;
            assert(stconn[j].id == x && stconn[j].state.current() == st);
        }
    }
    assert forall|x: u64| orig.spec_has_conn(x) && x != id implies stage.spec_has_conn(x) by {
        let j = choose|j: int|
            0 <= j < orig.connections@.len() && orig.connections@[j].id == x;
        assert(stconn[j].id == x);
    }
    assert forall|x: u64| stage.spec_has_conn(x) implies orig.spec_has_conn(x) by {
        let j = choose|j: int| 0 <= j < stconn.len() && stconn[j].id == x;
        assert(orig.connections@[j].id == x);
    }
    // Rooms of the post state.
    assert forall|n: Seq<char>, x: u64|
        post.spec_room_has(n, x) <==> (stage.spec_room_has(n, x)) by {}
    assert forall|n: Seq<char>|
        post.spec_has_room(n) <==> exists|x: u64| x != id && orig.spec_room_has(n, x) by {
        if post.spec_has_room(n) {
            let a = choose|a: int| 0 <= a < post.rooms@.len() && post.rooms@[a].name@ == n;
            let x = lemma_len_pos_member(id_set_contents(post.rooms@[a].members));
            assert(post.spec_room_has(n, x));
            assert(stage.spec_room_has(n, x));
            assert(orig.spec_room_has(n, x) && x != id);
        }
        if exists|x: u64| x != id && orig.spec_room_has(n, x) {
            let x = choose|x: u64| x != id && orig.spec_room_has(n, x);
            assert(stage.spec_room_has(n, x));
            assert(post.spec_room_has(n, x));
            assert(post.spec_has_room(n));
        }
    }
    // Well-formedness clauses that need witnesses.
    assert forall|i: int, j: int|
        0 <= i < j < postconn.len() implies postconn[i].id != postconn[j].id by {
        let mi = if i < i0 {
            i
        } else {
            i + 1
        };
        let mj = if j < i0 {
            j
        } else {
            j + 1
        };
        assert(postconn[i] == stconn[mi] && postconn[j] == stconn[mj]);
    }
    assert forall|i: int|
        0 <= i < postconn.len() && postconn[i].state.current()
            == ConnectionState::Ready implies post.member_ids().contains(postconn[i].id) by {
        let m = if i < i0 {
            i
        } else {
            i + 1
        };
        assert(postconn[i] == stconn[m]);
        assert(stage.member_ids().contains(stconn[m].id));
        assert(stconn[m].id != id) by {
            if m != i0 {
                assert(stconn[m].id != stconn[i0].id);
            }
        }
    }
    assert forall|i: int|
        0 <= i < postconn.len() && postconn[i].state.current() != ConnectionState::Ready
            && postconn[i].state.current() != ConnectionState::Closing implies !post.member_ids(
    ).contains(postconn[i].id) by {
        let m = if i < i0 {
            i
        } else {
            i + 1
        };
        assert(postconn[i] == stconn[m]);
        assert(!stage.member_ids().contains(stconn[m].id));
    }
    assert forall|x: u64| post.member_ids().contains(x) implies post.spec_has_conn(x) by {
        assert(stage.member_ids().contains(x) && x != id);
        assert(stage.spec_has_conn(x));
    }
    assert forall|a: int, x: u64|
        0 <= a < post.rooms@.len() && id_set_contents(post.rooms@[a].members).contains(
            x,
        ) implies post.spec_has_conn(x) by {
        assert(post.spec_room_has(post.rooms@[a].name@, x));
        assert(stage.spec_room_has(post.rooms@[a].name@, x));
        assert(orig.spec_room_has(post.rooms@[a].name@, x) && x != id);
        assert(stage.spec_has_conn(x));
    }
    assert forall|a: int, i: int|
        0 <= a < post.rooms@.len() && 0 <= i < postconn.len() implies (id_set_contents(
        post.rooms@[a].members,
    ).contains(postconn[i].id) <==> postconn[i].spec_joined(post.rooms@[a].name@)) by {
        let m = if i < i0 {
            i
        } else {
            i + 1
        };
        assert(postconn[i] == stconn[m]);
        assert(post.rooms@[a] == stage.rooms@[a]);
    }
    assert forall|i: int, k: int|
        0 <= i < postconn.len() && 0 <= k
            < postconn[i].joined_rooms@.len() implies post.spec_has_room(
        postconn[i].joined_rooms@[k]@,
    ) by {
        let m = if i < i0 {
            i
        } else {
            i + 1
        };
        assert(postconn[i] == stconn[m]);
        assert(stage.spec_has_room(stconn[m].joined_rooms@[k]@));
        let a = choose|a: int|
            0 <= a < stage.rooms@.len() && stage.rooms@[a].name@ == stconn[m].joined_rooms@[k]@;
        assert(post.rooms@[a].name@ == postconn[i].joined_rooms@[k]@);
    }
    assert forall|i: int, k: int, l: int|
        0 <= i < postconn.len() && 0 <= k < l
            < postconn[i].joined_rooms@.len() implies postconn[i].joined_rooms@[k]@
        != postconn[i].joined_rooms@[l]@ by {
        let m = if i < i0 {
            i
        } else {
            i + 1
        };
        assert(postconn[i] == stconn[m]);
    }
}

/// Finds the position of `name` among a record's joined room names.
fn joined_search(rooms: &Vec<String>, name: &str) -> (r: Option<usize>)
    ensures
        match r {
            Some(k) => k < rooms@.len() && rooms@[k as int]@ == name@,
            None => forall|k: int| 0 <= k < rooms@.len() ==> rooms@[k]@ != name@,
        },
{
    let n = rooms.len();
    let mut k: usize = 0;
    while k < n
        invariant
            k <= n,
            n == rooms@.len(),
            forall|j: int| 0 <= j < k ==> rooms@[j]@ != name@,
        decreases n - k,
    {
        if rooms[k].as_str().eq(name) {
            return Some(k);
        }
        k += 1;
    }
    None
}

/// A finite set with a member is not empty.
proof fn lemma_member_len_pos(s: Set<u64>, x: u64)
    requires
        s.finite(),
        s.contains(x),
    ensures
        s.len() > 0,
{
    if s.len() == 0 {
        s.lemma_len0_is_empty();
    }
}

/// Every record keeps its id and its state.
pub open spec fn conn_states_unchanged(
    pre: Seq<WsIoServerConnection>,
    post: Seq<WsIoServerConnection>,
) -> bool {
    &&& post.len() == pre.len()
    &&& forall|j: int|
        0 <= j < pre.len() ==> post[j].id == pre[j].id && post[j].state.current()
            == pre[j].state.current()
}

/// A finite nonempty set has a member.
proof fn lemma_len_pos_member(s: Set<u64>) -> (x: u64)
    requires
        s.finite(),
        s.len() > 0,
    ensures
        s.contains(x),
{
    if !(exists|y: u64| s.contains(y)) {
        assert(s =~= Set::<u64>::empty());
    }
    choose|y: u64| s.contains(y)
}

/// The effect of `leave` on a well-formed namespace: `id` leaves the room
/// named `room` (the room is deleted when that empties it), the name
/// leaves the record at `ii`, and nothing else moves.
#[verifier::rlimit(100)]
proof fn lemma_leave_effect(
    pre: WsIoServerNamespace,
    post: WsIoServerNamespace,
    id: u64,
    room: Seq<char>,
    ii: int,
    room_found: bool,
    room_dropped: bool,
    a0: int,
    kk: int,
)
    requires
        pre.wf(),
        WsIoServerNamespace::same_config_and_status(pre, post),
        id_set_contents(post.connection_ids) == id_set_contents(pre.connection_ids),
        0 <= ii < pre.connections@.len(),
        pre.connections@[ii].id == id,
        post.connections@.len() == pre.connections@.len(),
        forall|j: int|
            0 <= j < pre.connections@.len() && j != ii ==> post.connections@[j]
                == pre.connections@[j],
        post.connections@[ii].id == id,
        post.connections@[ii].state == pre.connections@[ii].state,
        kk < 0 ==> post.connections@[ii].joined_rooms == pre.connections@[ii].joined_rooms
            && !pre.connections@[ii].spec_joined(room),
        kk >= 0 ==> kk < pre.connections@[ii].joined_rooms@.len()
            && pre.connections@[ii].joined_rooms@[kk]@ == room
            && post.connections@[ii].joined_rooms@ == pre.connections@[ii].joined_rooms@.remove(
            kk,
        ),
        !room_found ==> post.rooms@ == pre.rooms@ && !pre.spec_has_room(room),
        room_found ==> 0 <= a0 < pre.rooms@.len() && pre.rooms@[a0].name@ == room,
        room_found && !room_dropped ==> post.rooms@.len() == pre.rooms@.len() && (forall|b: int|
            0 <= b < pre.rooms@.len() && b != a0 ==> post.rooms@[b] == pre.rooms@[b])
            && post.rooms@[a0].name == pre.rooms@[a0].name && id_set_contents(
            post.rooms@[a0].members,
        ) == id_set_contents(pre.rooms@[a0].members).remove(id) && !(id_set_contents(
            post.rooms@[a0].members,
        ) =~= Set::<u64>::empty()),
        room_found && room_dropped ==> post.rooms@ == pre.rooms@.remove(a0) && id_set_contents(
            pre.rooms@[a0].members,
        ).remove(id) =~= Set::<u64>::empty(),
    ensures
        post.wf(),
        conn_states_unchanged(pre.connections@, post.connections@),
        forall|n: Seq<char>, x: u64|
            post.spec_room_has(n, x) <==> (pre.spec_room_has(n, x) && !(n == room && x == id)),
        forall|n: Seq<char>|
            post.spec_has_room(n) <==> (if n == room {
                exists|x: u64| x != id && pre.spec_room_has(n, x)
            } else {
                pre.spec_has_room(n)
            }),
        forall|x: u64, n: Seq<char>|
            post.spec_conn_joined(x, n) <==> (pre.spec_conn_joined(x, n) && !(x == id && n
                == room)),
        post.connections@[ii].joined_rooms@.len() == pre.connections@[ii].joined_rooms@.len() - (
        if pre.connections@[ii].spec_joined(room) {
            1int
        } else {
            0int
        }),
{
    let preconn = pre.connections@;
    let postconn = post.connections@;
    let prerooms = pre.rooms@;
    let postrooms = post.rooms@;
    // The record at ii: joined names lose exactly `room`.
    if kk >= 0 {
        assert(preconn[ii].spec_joined(room));
    }
    assert forall|n: Seq<char>|
        #![trigger postconn[ii].spec_joined(n)]
        postconn[ii].spec_joined(n) <==> (preconn[ii].spec_joined(n) && n != room) by {
        if kk < 0 {
            if n == room && postconn[ii].spec_joined(n) {
                assert(preconn[ii].spec_joined(room));
            }
        } else {
            let prej = preconn[ii].joined_rooms@;
            let postj = postconn[ii].joined_rooms@;
            if postconn[ii].spec_joined(n) {
                let k = choose|k: int| 0 <= k < postj.len() && postj[k]@ == n;
                if k < kk {
                    assert(prej[k]@ == n);
                    assert(preconn[ii].spec_joined(n));
                    if n == room {
                        assert(prej[k]@ == prej[kk]@);
                        assert(false);
                    }
                } else {
                    assert(postj[k] == prej[k + 1]);
                    assert(preconn[ii].spec_joined(n));
                    if n == room {
                        assert(prej[k + 1]@ == prej[kk]@);
                        assert(false);
                    }
                }
            }
            if preconn[ii].spec_joined(n) && n != room {
                let k = choose|k: int| 0 <= k < prej.len() && prej[k]@ == n;
                assert(k != kk);
                if k < kk {
                    assert(postj[k]@ == n);
                } else {
                    assert(postj[k - 1] == prej[k]);
                }
                assert(postconn[ii].spec_joined(n));
            }
        }
    }
    // Room membership relates position by position.
    assert forall|n: Seq<char>, x: u64|
        post.spec_room_has(n, x) <==> (pre.spec_room_has(n, x) && !(n == room && x == id)) by {
        if !room_found {
            if post.spec_room_has(n, x) && n == room {
                assert(pre.spec_has_room(room));
                assert(false);
            }
            if pre.spec_room_has(n, x) && n == room {
                assert(pre.spec_has_room(room));
                assert(false);
            }
        } else if !room_dropped {
            if post.spec_room_has(n, x) {
                let a = choose|a: int|
                    0 <= a < postrooms.len() && postrooms[a].name@ == n && id_set_contents(
                        postrooms[a].members,
                    ).contains(x);
                if a == a0 {
                    assert(n == room);
                    assert(id_set_contents(prerooms[a0].members).contains(x) && x != id);
                    assert(pre.spec_room_has(n, x));
                } else {
                    assert(postrooms[a] == prerooms[a]);
                    assert(pre.spec_room_has(n, x));
                    if n == room && x == id {
                        assert(prerooms[a].name@ == prerooms[a0].name@);
                        assert(false);
                    }
                }
            }
            if pre.spec_room_has(n, x) && !(n == room && x == id) {
                let a = choose|a: int|
                    0 <= a < prerooms.len() && prerooms[a].name@ == n && id_set_contents(
                        prerooms[a].members,
                    ).contains(x);
                if a == a0 {
                    assert(n == room);
                    assert(id_set_contents(postrooms[a0].members).contains(x));
                    assert(postrooms[a0].name@ == n);
                    assert(post.spec_room_has(n, x));
                } else {
                    assert(postrooms[a] == prerooms[a]);
                    assert(post.spec_room_has(n, x));
                }
            }
        } else {
            if post.spec_room_has(n, x) {
                let b = choose|b: int|
                    0 <= b < postrooms.len() && postrooms[b].name@ == n && id_set_contents(
                        postrooms[b].members,
                    ).contains(x);
                let m = if b < a0 {
                    b
                } else {
                    b + 1
                };
                assert(postrooms[b] == prerooms[m]);
                assert(pre.spec_room_has(n, x));
                if n == room && x == id {
                    assert(prerooms[m].name@ == prerooms[a0].name@);
                    assert(m == a0);
                    assert(false);
                }
            }
            if pre.spec_room_has(n, x) && !(n == room && x == id) {
                let a = choose|a: int|
                    0 <= a < prerooms.len() && prerooms[a].name@ == n && id_set_contents(
                        prerooms[a].members,
                    ).contains(x);
                if a == a0 {
                    assert(n == room);
                    assert(!id_set_contents(prerooms[a0].members).remove(id).contains(x));
                    assert(false);
                } else {
                    let b = if a < a0 {
                        a
                    } else {
                        a - 1
                    };
                    assert(postrooms[b] == prerooms[a]);
                    assert(post.spec_room_has(n, x));
                }
            }
        }
    }
    // Room existence.
    assert forall|n: Seq<char>|
        post.spec_has_room(n) <==> (if n == room {
            exists|x: u64| x != id && pre.spec_room_has(n, x)
        } else {
            pre.spec_has_room(n)
        }) by {
        if n == room {
            if !room_found {
                if post.spec_has_room(room) {
                    assert(pre.spec_has_room(room));
                }
                if exists|x: u64| x != id && pre.spec_room_has(room, x) {
                    assert(pre.spec_has_room(room));
                }
            } else if !room_dropped {
                assert(postrooms[a0].name@ == room);
                assert(post.spec_has_room(room));
                let x = lemma_len_pos_member(id_set_contents(postrooms[a0].members));
                assert(id_set_contents(prerooms[a0].members).contains(x) && x != id);
                assert(pre.spec_room_has(room, x));
            } else {
                if post.spec_has_room(room) {
                    let b = choose|b: int| 0 <= b < postrooms.len() && postrooms[b].name@ == room;
                    let m = if b < a0 {
                        b
                    } else {
                        b + 1
                    };
                    assert(postrooms[b] == prerooms[m]);
                    assert(prerooms[m].name@ == prerooms[a0].name@);
                    assert(m == a0);
                    assert(false);
                }
                if exists|x: u64| x != id && pre.spec_room_has(room, x) {
                    let x = choose|x: u64| x != id && pre.spec_room_has(room, x);
                    let a = choose|a: int|
                        0 <= a < prerooms.len() && prerooms[a].name@ == room && id_set_contents(
                            prerooms[a].members,
                        ).contains(x);
                    assert(a == a0) by {
                        if a != a0 {
                            assert(prerooms[a].name@ == prerooms[a0].name@);
                        }
                    }
                    assert(!id_set_contents(prerooms[a0].members).remove(id).contains(x));
                    assert(false);
                }
            }
        } else {
            if post.spec_has_room(n) {
                let b = choose|b: int| 0 <= b < postrooms.len() && postrooms[b].name@ == n;
                if !room_found {
                    assert(pre.spec_has_room(n));
                } else if !room_dropped {
                    if b == a0 {
                        assert(prerooms[a0].name@ == n);
                    } else {
                        assert(postrooms[b] == prerooms[b]);
                    }
                    assert(pre.spec_has_room(n));
                } else {
                    let m = if b < a0 {
                        b
                    } else {
                        b + 1
                    };
                    assert(postrooms[b] == prerooms[m]);
                    assert(pre.spec_has_room(n));
                }
            }
            if pre.spec_has_room(n) {
                let a = choose|a: int| 0 <= a < prerooms.len() && prerooms[a].name@ == n;
                if !room_found {
                    assert(post.spec_has_room(n));
                } else {
                    assert(a != a0);
                    if !room_dropped {
                        assert(postrooms[a] == prerooms[a]);
                        assert(post.spec_has_room(n));
                    } else {
                        let b = if a < a0 {
                            a
                        } else {
                            a - 1
                        };
                        assert(postrooms[b] == prerooms[a]);
                        assert(post.spec_has_room(n));
                    }
                }
            }
        }
    }
    // Per-record joined names, lifted to connection ids.
    assert forall|x: u64, n: Seq<char>|
        post.spec_conn_joined(x, n) <==> (pre.spec_conn_joined(x, n) && !(x == id && n
            == room)) by {
        if post.spec_conn_joined(x, n) {
            let j = choose|j: int|
                0 <= j < postconn.len() && postconn[j].id == x && postconn[j].spec_joined(n);
            if j == ii {
                assert(preconn[ii].spec_joined(n) && n != room);
                assert(pre.spec_conn_joined(x, n));
            } else {
                assert(postconn[j] == preconn[j]);
                assert(pre.spec_conn_joined(x, n));
                if x == id && n == room {
                    assert(preconn[j].id == preconn[ii].id);
                    assert(false);
                }
            }
        }
        if pre.spec_conn_joined(x, n) && !(x == id && n == room) {
            let j = choose|j: int|
                0 <= j < preconn.len() && preconn[j].id == x && preconn[j].spec_joined(n);
            if j == ii {
                assert(n != room);
                assert(postconn[ii].spec_joined(n));
                assert(post.spec_conn_joined(x, n));
            } else {
                assert(postconn[j] == preconn[j]);
                assert(post.spec_conn_joined(x, n));
            }
        }
    }
    // Well-formedness of the post state.
    assert forall|i: int|
        0 <= i < postconn.len() implies postconn[i].state.current()
        == preconn[i].state.current() by {
        if i != ii {
            assert(postconn[i] == preconn[i]);
        }
    }
    assert forall|x: u64| post.member_ids().contains(x) implies post.spec_has_conn(x) by {
        assert(pre.spec_has_conn(x));
        let j = choose|j: int| 0 <= j < preconn.len() && preconn[j].id == x;
        assert(postconn[j].id == x);
    }
    assert forall|a: int, b: int|
        0 <= a < b < postrooms.len() implies postrooms[a].name@ != postrooms[b].name@ by {
        if room_found && room_dropped {
            let ma = if a < a0 {
                a
            } else {
                a + 1
            };
            let mb = if b < a0 {
                b
            } else {
                b + 1
            };
            assert(postrooms[a] == prerooms[ma] && postrooms[b] == prerooms[mb]);
        } else if room_found {
            if a == a0 {
                assert(postrooms[a].name@ == prerooms[a0].name@);
            }
            if b == a0 {
                assert(postrooms[b].name@ == prerooms[a0].name@);
            }
            if a != a0 {
                assert(postrooms[a] == prerooms[a]);
            }
            if b != a0 {
                assert(postrooms[b] == prerooms[b]);
            }
        }
    }
    assert forall|a: int| 0 <= a < postrooms.len() implies id_set_contents(
        postrooms[a].members,
    ).finite() && id_set_contents(postrooms[a].members).len() > 0 by {
        if room_found && room_dropped {
            let m = if a < a0 {
                a
            } else {
                a + 1
            };
            assert(postrooms[a] == prerooms[m]);
        } else if room_found && a == a0 {
            assert(id_set_contents(postrooms[a0].members) == id_set_contents(
                prerooms[a0].members,
            ).remove(id));
            if !(exists|x: u64| id_set_contents(postrooms[a0].members).contains(x)) {
                assert(id_set_contents(postrooms[a0].members) =~= Set::<u64>::empty());
            }
            let x = choose|x: u64| id_set_contents(postrooms[a0].members).contains(x);
            lemma_member_len_pos(id_set_contents(postrooms[a0].members), x);
        } else if room_found {
            assert(postrooms[a] == prerooms[a]);
        }
    }
    assert forall|a: int, x: u64|
        0 <= a < postrooms.len() && id_set_contents(postrooms[a].members).contains(
            x,
        ) implies post.spec_has_conn(x) by {
        assert(post.spec_room_has(postrooms[a].name@, x));
        assert(pre.spec_room_has(postrooms[a].name@, x));
        let c = choose|c: int|
            0 <= c < prerooms.len() && prerooms[c].name@ == postrooms[a].name@ && id_set_contents(
                prerooms[c].members,
            ).contains(x);
        assert(pre.spec_has_conn(x));
        let j = choose|j: int| 0 <= j < preconn.len() && preconn[j].id == x;
        assert(postconn[j].id == x);
    }
    assert forall|a: int, i: int|
        0 <= a < postrooms.len() && 0 <= i < postconn.len() implies (id_set_contents(
        postrooms[a].members,
    ).contains(postconn[i].id) <==> postconn[i].spec_joined(postrooms[a].name@)) by {
        let n = postrooms[a].name@;
        let x = postconn[i].id;
        assert(id_set_contents(postrooms[a].members).contains(x) == post.spec_room_has(n, x)) by {
            if post.spec_room_has(n, x) {
                let b = choose|b: int|
                    0 <= b < postrooms.len() && postrooms[b].name@ == n && id_set_contents(
                        postrooms[b].members,
                    ).contains(x);
                if b != a {
                    assert(postrooms[b].name@ == postrooms[a].name@);
                    assert(false);
                }
            }
        }
        assert(postconn[i].spec_joined(n) == post.spec_conn_joined(x, n)) by {
            if post.spec_conn_joined(x, n) {
                let j = choose|j: int|
                    0 <= j < postconn.len() && postconn[j].id == x && postconn[j].spec_joined(n);
                if j != i {
                    assert(postconn[j].id == postconn[i].id);
                    assert(false);
                }
            }
        }
        assert(pre.spec_room_has(n, x) == pre.spec_conn_joined(x, n)) by {
            if pre.spec_room_has(n, x) {
                let b = choose|b: int|
                    0 <= b < prerooms.len() && prerooms[b].name@ == n && id_set_contents(
                        prerooms[b].members,
                    ).contains(x);
                assert(pre.spec_has_conn(x));
                let j = choose|j: int| 0 <= j < preconn.len() && preconn[j].id == x;
                assert(preconn[j].spec_joined(n));
                assert(pre.spec_conn_joined(x, n));
            }
            if pre.spec_conn_joined(x, n) {
                let j = choose|j: int|
                    0 <= j < preconn.len() && preconn[j].id == x && preconn[j].spec_joined(n);
                assert(pre.spec_has_room(n));
                let b = choose|b: int| 0 <= b < prerooms.len() && prerooms[b].name@ == n;
                assert(id_set_contents(prerooms[b].members).contains(x));
                assert(pre.spec_room_has(n, x));
            }
        }
    }
    assert forall|i: int, k: int|
        0 <= i < postconn.len() && 0 <= k
            < postconn[i].joined_rooms@.len() implies post.spec_has_room(
        postconn[i].joined_rooms@[k]@,
    ) by {
        let n = postconn[i].joined_rooms@[k]@;
        assert(postconn[i].spec_joined(n));
        assert(post.spec_conn_joined(postconn[i].id, n));
        assert(pre.spec_conn_joined(postconn[i].id, n) && !(postconn[i].id == id && n == room));
        if n == room {
            assert(postconn[i].id != id);
            let j = choose|j: int|
                0 <= j < preconn.len() && preconn[j].id == postconn[i].id && preconn[j].spec_joined(
                    room,
                );
            assert(pre.spec_has_room(room));
            let b = choose|b: int| 0 <= b < prerooms.len() && prerooms[b].name@ == room;
            assert(b == a0) by {
                if b != a0 {
                    assert(prerooms[b].name@ == prerooms[a0].name@);
                }
            }
            assert(id_set_contents(prerooms[a0].members).contains(preconn[j].id));
            assert(post.spec_room_has(room, preconn[j].id));
            assert(post.spec_has_room(room));
        } else {
            assert(pre.spec_conn_joined(postconn[i].id, n));
            let j = choose|j: int|
                0 <= j < preconn.len() && preconn[j].id == postconn[i].id && preconn[j].spec_joined(
                    n,
                );
            assert(pre.spec_has_room(n));
            assert(post.spec_has_room(n));
        }
    }
    assert forall|i: int, k: int, l: int|
        0 <= i < postconn.len() && 0 <= k < l
            < postconn[i].joined_rooms@.len() implies postconn[i].joined_rooms@[k]@
        != postconn[i].joined_rooms@[l]@ by {
        if i != ii {
            assert(postconn[i] == preconn[i]);
        } else if kk >= 0 {
            let prej = preconn[ii].joined_rooms@;
            let mk = if k < kk {
                k
            } else {
                k + 1
            };
            let ml = if l < kk {
                l
            } else {
                l + 1
            };
            assert(postconn[ii].joined_rooms@[k] == prej[mk]);
            assert(postconn[ii].joined_rooms@[l] == prej[ml]);
        }
    }
}

/// The effect of `join` on a well-formed namespace: the room named `room`
/// gains `id`, the record at `ii` gains the name, and nothing else moves.
#[verifier::rlimit(60)]
proof fn lemma_join_effect(
    pre: WsIoServerNamespace,
    post: WsIoServerNamespace,
    id: u64,
    room: Seq<char>,
    ii: int,
    a0: int,
    already: bool,
    room_existed: bool,
)
    requires
        pre.wf(),
        WsIoServerNamespace::same_config_and_status(pre, post),
        id_set_contents(post.connection_ids) == id_set_contents(pre.connection_ids),
        0 <= ii < pre.connections@.len(),
        pre.connections@[ii].id == id,
        post.connections@.len() == pre.connections@.len(),
        forall|j: int|
            0 <= j < pre.connections@.len() && j != ii ==> post.connections@[j]
                == pre.connections@[j],
        post.connections@[ii].id == id,
        post.connections@[ii].state == pre.connections@[ii].state,
        already == pre.connections@[ii].spec_joined(room),
        already ==> post.connections@[ii] == pre.connections@[ii],
        !already ==> post.connections@[ii].joined_rooms@.len() == pre.connections@[ii].joined_rooms@.len()
            + 1 && (forall|k: int|
            0 <= k < pre.connections@[ii].joined_rooms@.len()
                ==> post.connections@[ii].joined_rooms@[k]
                == pre.connections@[ii].joined_rooms@[k])
            && post.connections@[ii].joined_rooms@.last()@ == room,
        room_existed ==> 0 <= a0 < pre.rooms@.len() && pre.rooms@[a0].name@ == room
            && post.rooms@.len() == pre.rooms@.len() && (forall|b: int|
            0 <= b < pre.rooms@.len() && b != a0 ==> post.rooms@[b] == pre.rooms@[b])
            && post.rooms@[a0].name == pre.rooms@[a0].name && id_set_contents(
            post.rooms@[a0].members,
        ) == id_set_contents(pre.rooms@[a0].members).insert(id),
        !room_existed ==> a0 == pre.rooms@.len() && !pre.spec_has_room(room) && post.rooms@.len()
            == pre.rooms@.len() + 1 && (forall|b: int|
            0 <= b < pre.rooms@.len() ==> post.rooms@[b] == pre.rooms@[b])
            && post.rooms@[a0].name@ == room && id_set_contents(post.rooms@[a0].members)
            == Set::<u64>::empty().insert(id),
    ensures
        post.wf(),
        post.member_ids() == pre.member_ids(),
        conn_states_unchanged(pre.connections@, post.connections@),
        forall|n: Seq<char>, x: u64|
            post.spec_room_has(n, x) <==> (pre.spec_room_has(n, x) || (n == room && x == id)),
        forall|n: Seq<char>| post.spec_has_room(n) <==> (pre.spec_has_room(n) || n == room),
        forall|x: u64, n: Seq<char>|
            post.spec_conn_joined(x, n) <==> (pre.spec_conn_joined(x, n) || (x == id && n
                == room)),
{
    let preconn = pre.connections@;
    let postconn = post.connections@;
    let prerooms = pre.rooms@;
    let postrooms = post.rooms@;
    // Joined-name sets: the record at ii relates to its old self.
    assert forall|n: Seq<char>|
        #![trigger postconn[ii].spec_joined(n)]
        postconn[ii].spec_joined(n) <==> (preconn[ii].spec_joined(n) || n == room) by {
        if already {
            if n == room {
                assert(preconn[ii].spec_joined(room));
            }
        } else {
            if postconn[ii].spec_joined(n) {
                let k = choose|k: int|
                    0 <= k < postconn[ii].joined_rooms@.len() && postconn[ii].joined_rooms@[k]@
                        == n;
                if k < preconn[ii].joined_rooms@.len() {
                    assert(preconn[ii].joined_rooms@[k]@ == n);
                    assert(preconn[ii].spec_joined(n));
                } else {
                    assert(n == room);
                }
            }
            if preconn[ii].spec_joined(n) {
                let k = choose|k: int|
                    0 <= k < preconn[ii].joined_rooms@.len() && preconn[ii].joined_rooms@[k]@ == n;
                assert(postconn[ii].joined_rooms@[k]@ == n);
                assert(postconn[ii].spec_joined(n));
            }
            if n == room {
                let l = postconn[ii].joined_rooms@.len() - 1;
                assert(postconn[ii].joined_rooms@[l]@ == room);
                assert(postconn[ii].spec_joined(room));
            }
        }
    }
    // Room membership, per room index.
    assert forall|a: int, x: u64|
        #![trigger id_set_contents(postrooms[a].members).contains(x)]
        0 <= a < postrooms.len() implies (id_set_contents(postrooms[a].members).contains(x) <==> (
    if a == a0 && !room_existed {
        x == id
    } else if a == a0 {
        id_set_contents(prerooms[a].members).contains(x) || x == id
    } else {
        id_set_contents(prerooms[a].members).contains(x)
    })) by {
        if a != a0 {
            assert(postrooms[a] == prerooms[a]);
        }
    }
    // The ids recorded in rooms are connection ids of records.
    assert forall|a: int, x: u64|
        0 <= a < postrooms.len() && id_set_contents(postrooms[a].members).contains(
            x,
        ) implies post.spec_has_conn(x) by {
        if a == a0 && !room_existed {
            assert(postconn[ii].id == x);
        } else if a == a0 && x != id {
            assert(pre.spec_has_conn(x));
            let j = choose|j: int| 0 <= j < preconn.len() && preconn[j].id == x;
            assert(postconn[j].id == x);
        } else if a == a0 {
            assert(postconn[ii].id == x);
        } else {
            assert(pre.spec_has_conn(x));
            let j = choose|j: int| 0 <= j < preconn.len() && preconn[j].id == x;
            assert(postconn[j].id == x);
        }
    }
    assert forall|x: u64| post.member_ids().contains(x) implies post.spec_has_conn(x) by {
        assert(pre.spec_has_conn(x));
        let j = choose|j: int| 0 <= j < preconn.len() && preconn[j].id == x;
        assert(postconn[j].id == x);
    }
    // Room name uniqueness and room sizes.
    assert forall|a: int, b: int|
        0 <= a < b < postrooms.len() implies postrooms[a].name@ != postrooms[b].name@ by {
        if !room_existed && b == a0 {
            assert(postrooms[a] == prerooms[a]);
            assert(!pre.spec_has_room(room));
            assert(prerooms[a].name@ != room);
        } else {
            if a != a0 {
                assert(postrooms[a] == prerooms[a]);
            }
            if b != a0 {
                assert(postrooms[b] == prerooms[b]);
            }
            if a == a0 {
                assert(postrooms[a].name@ == prerooms[a0 as int].name@);
            }
        }
    }
    assert forall|a: int| 0 <= a < postrooms.len() implies id_set_contents(
        postrooms[a].members,
    ).finite() && id_set_contents(postrooms[a].members).len() > 0 by {
        if a == a0 {
            assert(id_set_contents(postrooms[a].members).contains(id));
            lemma_member_len_pos(id_set_contents(postrooms[a].members), id);
        } else {
            assert(postrooms[a] == prerooms[a]);
        }
    }
    // Membership agrees with joined-room names (room/record pairwise).
    assert forall|a: int, i: int|
        0 <= a < postrooms.len() && 0 <= i < postconn.len() implies (id_set_contents(
        postrooms[a].members,
    ).contains(postconn[i].id) <==> postconn[i].spec_joined(postrooms[a].name@)) by {
        if i != ii {
            assert(postconn[i] == preconn[i]);
            assert(preconn[i].id != id);
            if a == a0 {
                assert(postrooms[a].name@ == room);
                if room_existed {
                    assert(id_set_contents(prerooms[a0].members).contains(preconn[i].id)
                        <==> preconn[i].spec_joined(room));
                } else {
                    if preconn[i].spec_joined(room) {
                        assert(pre.spec_has_room(room));
                    }
                }
            } else {
                assert(postrooms[a] == prerooms[a]);
            }
        } else {
            if a == a0 {
                assert(id_set_contents(postrooms[a].members).contains(id));
                assert(postconn[ii].spec_joined(room));
            } else {
                assert(postrooms[a] == prerooms[a]);
                assert(prerooms[a].name@ != room) by {
                    if room_existed {
                        assert(prerooms[a0 as int].name@ == room);
                    } else {
                        if prerooms[a].name@ == room {
                            assert(pre.spec_has_room(room));
                        }
                    }
                }
                assert(postconn[ii].spec_joined(prerooms[a].name@) <==> preconn[ii].spec_joined(
                    prerooms[a].name@,
                ));
            }
        }
    }
    // Every joined name still has its room.
    assert forall|i: int, k: int|
        0 <= i < postconn.len() && 0 <= k
            < postconn[i].joined_rooms@.len() implies post.spec_has_room(
        postconn[i].joined_rooms@[k]@,
    ) by {
        let n = postconn[i].joined_rooms@[k]@;
        if i == ii && !already && k == postconn[ii].joined_rooms@.len() - 1 {
            assert(postrooms[a0].name@ == room);
        } else {
            if i == ii {
                assert(n == preconn[ii].joined_rooms@[k]@);
            } else {
                assert(postconn[i] == preconn[i]);
            }
            assert(pre.spec_has_room(n));
            let b = choose|b: int| 0 <= b < prerooms.len() && prerooms[b].name@ == n;
            if b == a0 && room_existed {
                assert(postrooms[b].name@ == n);
            } else {
                assert(postrooms[b] == prerooms[b]);
            }
        }
    }
    // Joined names stay unique per record.
    assert forall|i: int, k: int, l: int|
        0 <= i < postconn.len() && 0 <= k < l
            < postconn[i].joined_rooms@.len() implies postconn[i].joined_rooms@[k]@
        != postconn[i].joined_rooms@[l]@ by {
        if i != ii {
            assert(postconn[i] == preconn[i]);
        } else if !already && l == postconn[ii].joined_rooms@.len() - 1 {
            assert(postconn[ii].joined_rooms@[k]@ == preconn[ii].joined_rooms@[k]@);
            if preconn[ii].joined_rooms@[k]@ == room {
                assert(preconn[ii].spec_joined(room));
            }
        }
    }
    // Ready/non-ready visibility carries over record by record.
    assert forall|i: int|
        0 <= i < postconn.len() implies postconn[i].state.current()
        == preconn[i].state.current() by {
        if i != ii {
            assert(postconn[i] == preconn[i]);
        }
    }
    // The advertised effect, in both directions.
    assert forall|n: Seq<char>, x: u64|
        post.spec_room_has(n, x) <==> (pre.spec_room_has(n, x) || (n == room && x == id)) by {
        if post.spec_room_has(n, x) {
            let a = choose|a: int|
                0 <= a < postrooms.len() && postrooms[a].name@ == n && id_set_contents(
                    postrooms[a].members,
                ).contains(x);
            if a == a0 {
                if !(n == room && x == id) {
                    assert(room_existed);
                    assert(id_set_contents(prerooms[a0].members).contains(x));
                    assert(pre.spec_room_has(n, x));
                }
            } else {
                assert(postrooms[a] == prerooms[a]);
                assert(pre.spec_room_has(n, x));
            }
        }
        if pre.spec_room_has(n, x) {
            let a = choose|a: int|
                0 <= a < prerooms.len() && prerooms[a].name@ == n && id_set_contents(
                    prerooms[a].members,
                ).contains(x);
            if a == a0 && room_existed {
                assert(id_set_contents(postrooms[a0].members).contains(x));
                assert(postrooms[a0].name@ == n);
                assert(post.spec_room_has(n, x));
            } else {
                assert(postrooms[a] == prerooms[a]);
                assert(post.spec_room_has(n, x));
            }
        }
        if n == room && x == id {
            assert(postrooms[a0].name@ == room);
            assert(id_set_contents(postrooms[a0].members).contains(id));
            assert(post.spec_room_has(room, id));
        }
    }
    assert forall|n: Seq<char>|
        post.spec_has_room(n) <==> (pre.spec_has_room(n) || n == room) by {
        if post.spec_has_room(n) {
            let a = choose|a: int| 0 <= a < postrooms.len() && postrooms[a].name@ == n;
            if a == a0 {
                if room_existed {
                    assert(prerooms[a0].name@ == n);
                    assert(pre.spec_has_room(n));
                } else {
                    assert(n == room);
                }
            } else {
                assert(postrooms[a] == prerooms[a]);
                assert(pre.spec_has_room(n));
            }
        }
        if pre.spec_has_room(n) {
            let a = choose|a: int| 0 <= a < prerooms.len() && prerooms[a].name@ == n;
            if a == a0 && room_existed {
                assert(postrooms[a0].name@ == n);
                assert(post.spec_has_room(n));
            } else {
                assert(postrooms[a] == prerooms[a]);
                assert(post.spec_has_room(n));
            }
        }
        if n == room {
            assert(postrooms[a0].name@ == room);
            assert(post.spec_has_room(room));
        }
    }
    assert forall|x: u64, n: Seq<char>|
        post.spec_conn_joined(x, n) <==> (pre.spec_conn_joined(x, n) || (x == id && n
            == room)) by {
        if post.spec_conn_joined(x, n) {
            let j = choose|j: int|
                0 <= j < postconn.len() && postconn[j].id == x && postconn[j].spec_joined(n);
            if j == ii {
                if !(x == id && n == room) {
                    assert(preconn[ii].spec_joined(n));
                    assert(pre.spec_conn_joined(x, n));
                }
            } else {
                assert(postconn[j] == preconn[j]);
                assert(pre.spec_conn_joined(x, n));
            }
        }
        if pre.spec_conn_joined(x, n) {
            let j = choose|j: int|
                0 <= j < preconn.len() && preconn[j].id == x && preconn[j].spec_joined(n);
            if j == ii {
                assert(postconn[ii].spec_joined(n));
                assert(post.spec_conn_joined(x, n));
            } else {
                assert(postconn[j] == preconn[j]);
                assert(post.spec_conn_joined(x, n));
            }
        }
        if x == id && n == room {
            assert(postconn[ii].spec_joined(room));
            assert(post.spec_conn_joined(id, room));
        }
    }
}

/// Well-formedness depends only on the record sequence, the room sequence
/// and the membership set: when those are unchanged, it carries over.
pub proof fn lemma_wf_transfer(pre: WsIoServerNamespace, post: WsIoServerNamespace)
    requires
        pre.wf(),
        post.connections@ == pre.connections@,
        post.rooms@ == pre.rooms@,
        id_set_contents(post.connection_ids) == id_set_contents(pre.connection_ids),
    ensures
        post.wf(),
{
    assert forall|x: u64| post.member_ids().contains(x) implies post.spec_has_conn(x) by {
        assert(pre.spec_has_conn(x));
        let i = choose|i: int| 0 <= i < pre.connections@.len() && pre.connections@[i].id == x;
        assert(post.connections@[i].id == x);
    }
    assert forall|a: int, x: u64|
        0 <= a < post.rooms@.len() && id_set_contents(post.rooms@[a].members).contains(
            x,
        ) implies post.spec_has_conn(x) by {
        assert(pre.spec_has_conn(x));
        let i = choose|i: int| 0 <= i < pre.connections@.len() && pre.connections@[i].id == x;
        assert(post.connections@[i].id == x);
    }
    assert forall|i: int, k: int|
        0 <= i < post.connections@.len() && 0 <= k
            < post.connections@[i].joined_rooms@.len() implies post.spec_has_room(
        post.connections@[i].joined_rooms@[k]@,
    ) by {
        assert(pre.spec_has_room(pre.connections@[i].joined_rooms@[k]@));
        let a = choose|a: int|
            0 <= a < pre.rooms@.len() && pre.rooms@[a].name@
                == pre.connections@[i].joined_rooms@[k]@;
        assert(post.rooms@[a].name@ == post.connections@[i].joined_rooms@[k]@);
    }
}

/// The record for `id` moved from `from` to `to`; every other record, and
/// the moved record's id and joined rooms, stayed as they were.
pub open spec fn conn_state_updated(
    pre: Seq<WsIoServerConnection>,
    post: Seq<WsIoServerConnection>,
    id: u64,
    from: ConnectionState,
    to: ConnectionState,
) -> bool {
    exists|i: int|
        #![trigger pre[i]]
        0 <= i < pre.len() && pre[i].id == id && pre[i].state.current() == from && post.len()
            == pre.len() && (forall|j: int| 0 <= j < pre.len() && j != i ==> post[j] == pre[j])
            && post[i].id == id && post[i].state.current() == to && post[i].joined_rooms
            == pre[i].joined_rooms
}

/// After a pure state change of the record at `ii` (ids, rooms, joined
/// rooms and membership set untouched), the room clauses of `wf` carry
/// over from `pre` to `post`.
proof fn assert_ns_wf_rooms_after_state_change(
    pre: WsIoServerNamespace,
    post: WsIoServerNamespace,
    ii: int,
)
    requires
        pre.wf(),
        0 <= ii < pre.connections@.len(),
        post.connections@.len() == pre.connections@.len(),
        forall|j: int|
            0 <= j < pre.connections@.len() && j != ii ==> post.connections@[j]
                == pre.connections@[j],
        post.connections@[ii].id == pre.connections@[ii].id,
        post.connections@[ii].joined_rooms == pre.connections@[ii].joined_rooms,
        post.rooms@ == pre.rooms@,
    ensures
        forall|a: int, b: int|
            0 <= a < b < post.rooms@.len() ==> post.rooms@[a].name@ != post.rooms@[b].name@,
        forall|a: int|
            0 <= a < post.rooms@.len() ==> id_set_contents(post.rooms@[a].members).finite(),
        forall|a: int|
            0 <= a < post.rooms@.len() ==> id_set_contents(post.rooms@[a].members).len() > 0,
        forall|a: int, x: u64|
            0 <= a < post.rooms@.len() && id_set_contents(post.rooms@[a].members).contains(x)
                ==> post.spec_has_conn(x),
        forall|a: int, i: int|
            0 <= a < post.rooms@.len() && 0 <= i < post.connections@.len() ==> (id_set_contents(
                post.rooms@[a].members,
            ).contains(post.connections@[i].id) <==> post.connections@[i].spec_joined(
                post.rooms@[a].name@,
            )),
        forall|i: int, k: int|
            0 <= i < post.connections@.len() && 0 <= k < post.connections@[i].joined_rooms@.len()
                ==> post.spec_has_room(post.connections@[i].joined_rooms@[k]@),
        forall|i: int, k: int, l: int|
            0 <= i < post.connections@.len() && 0 <= k < l
                < post.connections@[i].joined_rooms@.len()
                ==> post.connections@[i].joined_rooms@[k]@
                != post.connections@[i].joined_rooms@[l]@,
{
    assert forall|a: int, x: u64|
        0 <= a < post.rooms@.len() && id_set_contents(post.rooms@[a].members).contains(
            x,
        ) implies post.spec_has_conn(x) by {
        assert(pre.spec_has_conn(x));
        let j = choose|j: int| 0 <= j < pre.connections@.len() && pre.connections@[j].id == x;
        assert(post.connections@[j].id == x);
    }
    assert forall|a: int, i: int|
        0 <= a < post.rooms@.len() && 0 <= i < post.connections@.len() implies (id_set_contents(
        post.rooms@[a].members,
    ).contains(post.connections@[i].id) <==> post.connections@[i].spec_joined(
        post.rooms@[a].name@,
    )) by {
        if i == ii {
            assert(post.connections@[i].id == pre.connections@[i].id);
            assert(post.connections@[i].spec_joined(post.rooms@[a].name@)
                == pre.connections@[i].spec_joined(pre.rooms@[a].name@));
        } else {
            assert(post.connections@[i] == pre.connections@[i]);
        }
    }
    assert forall|i: int, k: int|
        0 <= i < post.connections@.len() && 0 <= k
            < post.connections@[i].joined_rooms@.len() implies post.spec_has_room(
        post.connections@[i].joined_rooms@[k]@,
    ) by {
        if i == ii {
            assert(pre.spec_has_room(pre.connections@[i].joined_rooms@[k]@));
        } else {
            assert(post.connections@[i] == pre.connections@[i]);
            assert(pre.spec_has_room(pre.connections@[i].joined_rooms@[k]@));
        }
        let a = choose|a: int|
            0 <= a < pre.rooms@.len() && pre.rooms@[a].name@
                == pre.connections@[i].joined_rooms@[k]@;
        assert(post.rooms@[a].name@ == post.connections@[i].joined_rooms@[k]@);
    }
    assert forall|i: int, k: int, l: int|
        0 <= i < post.connections@.len() && 0 <= k < l
            < post.connections@[i].joined_rooms@.len() implies post.connections@[i].joined_rooms@[k]@
        != post.connections@[i].joined_rooms@[l]@ by {
        if i != ii {
            assert(post.connections@[i] == pre.connections@[i]);
        }
    }
}

/// After a pure state change of the record at `ii` that keeps it outside
/// `Ready` bookkeeping changes, all of `wf` carries over.
proof fn assert_ns_wf_after_state_change(pre: WsIoServerNamespace, post: WsIoServerNamespace, ii: int)
    requires
        pre.wf(),
        0 <= ii < pre.connections@.len(),
        post.connections@.len() == pre.connections@.len(),
        forall|j: int|
            0 <= j < pre.connections@.len() && j != ii ==> post.connections@[j]
                == pre.connections@[j],
        post.connections@[ii].id == pre.connections@[ii].id,
        post.connections@[ii].joined_rooms == pre.connections@[ii].joined_rooms,
        post.connections@[ii].state.current() != ConnectionState::Ready,
        pre.connections@[ii].state.current() != ConnectionState::Ready,
        pre.connections@[ii].state.current() != ConnectionState::Closing,
        post.rooms@ == pre.rooms@,
        id_set_contents(post.connection_ids) == id_set_contents(pre.connection_ids),
    ensures
        post.wf(),
{
    assert forall|x: u64| post.member_ids().contains(x) implies post.spec_has_conn(x) by {
        assert(pre.spec_has_conn(x));
        let j = choose|j: int| 0 <= j < pre.connections@.len() && pre.connections@[j].id == x;
        assert(post.connections@[j].id == x);
    }
    assert forall|i: int|
        0 <= i < post.connections@.len() && post.connections@[i].state.current()
            == ConnectionState::Ready implies post.member_ids().contains(
        post.connections@[i].id,
    ) by {
        assert(i != ii);
        assert(post.connections@[i] == pre.connections@[i]);
    }
    assert forall|i: int|
        0 <= i < post.connections@.len() && post.connections@[i].state.current()
            != ConnectionState::Ready && post.connections@[i].state.current()
            != ConnectionState::Closing implies !post.member_ids().contains(
        post.connections@[i].id,
    ) by {
        if i != ii {
            assert(post.connections@[i] == pre.connections@[i]);
        } else {
            assert(!pre.member_ids().contains(pre.connections@[ii].id));
        }
    }
    assert_ns_wf_rooms_after_state_change(pre, post, ii);
}


/// Once a connection enters `Ready` it is visible in its namespace's
/// broadcast set; a connection that has not reached `Ready` (or has gone
/// past `Closing`) never is.
pub proof fn lemma_ready_connection_is_visible(ns: WsIoServerNamespace, i: int)
    requires
        ns.wf(),
        0 <= i < ns.connections@.len(),
    ensures
        ns.connections@[i].state.current() == ConnectionState::Ready ==> ns.member_ids().contains(
            ns.connections@[i].id,
        ),
        ns.connections@[i].state.current() != ConnectionState::Ready
            && ns.connections@[i].state.current() != ConnectionState::Closing
            ==> !ns.member_ids().contains(ns.connections@[i].id),
{
}

/// For every room and every connection of a well-formed namespace, the
/// connection's id is in the room's member set exactly when the room's
/// name is among the connection's joined rooms.
pub proof fn lemma_room_membership_matches_joined_rooms(
    ns: WsIoServerNamespace,
    a: int,
    i: int,
)
    requires
        ns.wf(),
        0 <= a < ns.rooms@.len(),
        0 <= i < ns.connections@.len(),
    ensures
        id_set_contents(ns.rooms@[a].members).contains(ns.connections@[i].id)
            <==> ns.connections@[i].spec_joined(ns.rooms@[a].name@),
{
}

} // verus!
