use vstd::prelude::*;

use crate::codec::wire_bytes;
use crate::error::WsIoError;
use crate::idset::{id_set_clone, id_set_contents, id_set_difference_with, id_set_new,
    id_set_remove, id_set_to_vec, id_set_union_with};
use crate::namespace::{NamespaceStatus, WsIoServerNamespace};
use crate::packet::{opt_bytes_view, packet_type_code, WsIoPacket, WsIoPacketType};

verus! {


/// Stage one of target resolution: `cur` holds the union of the first `k`
/// included rooms' members.
pub open spec fn included_rooms_collected(
    op: WsIoServerNamespaceBroadcastOperator,
    ns: WsIoServerNamespace,
    cur: Set<u64>,
    k: int,
) -> bool {
    forall|x: u64|
        cur.contains(x) <==> exists|j: int| 0 <= j < k && ns.spec_room_has(op.include_rooms@[j]@, x)
}

/// Stage two of target resolution: `cur` is `base0` minus the members of
/// the first `k` excluded rooms.
pub open spec fn excluded_rooms_removed(
    op: WsIoServerNamespaceBroadcastOperator,
    ns: WsIoServerNamespace,
    base0: Set<u64>,
    cur: Set<u64>,
    k: int,
) -> bool {
    forall|x: u64|
        cur.contains(x) <==> (base0.contains(x) && !(exists|j: int|
            0 <= j < k && ns.spec_room_has(op.exclude_rooms@[j]@, x)))
}

/// Stage three of target resolution: `cur` is `base1` minus the first `k`
/// excluded connection ids.
pub open spec fn excluded_ids_removed(
    op: WsIoServerNamespaceBroadcastOperator,
    base1: Set<u64>,
    cur: Set<u64>,
    k: int,
) -> bool {
    forall|x: u64|
        cur.contains(x) <==> (base1.contains(x) && !op.exclude_connection_ids@.take(k).contains(x))
}

/// A broadcast builder: send to the union of `include_rooms` (or to every
/// connection of the namespace when that list is empty), minus the union
/// of `exclude_rooms`, minus `exclude_connection_ids`.
///
/// The operator only resolves targets and encodes the packet; handing the
/// frame to each target's outbound channel is the caller's work.
pub struct WsIoServerNamespaceBroadcastOperator {
    pub include_rooms: Vec<String>,
    pub exclude_rooms: Vec<String>,
    pub exclude_connection_ids: Vec<u64>,
}

impl WsIoServerNamespaceBroadcastOperator {
    /// Whether `x` is a target of this broadcast against namespace `ns`.
    pub open spec fn is_target(self, ns: WsIoServerNamespace, x: u64) -> bool {
        &&& if self.include_rooms@.len() == 0 {
            ns.member_ids().contains(x)
        } else {
            exists|k: int|
                0 <= k < self.include_rooms@.len() && ns.spec_room_has(
                    self.include_rooms@[k]@,
                    x,
                )
        }
        &&& !(exists|k: int|
            0 <= k < self.exclude_rooms@.len() && ns.spec_room_has(self.exclude_rooms@[k]@, x))
        &&& !self.exclude_connection_ids@.contains(x)
    }

    /// A broadcast that reaches every connection of the namespace.
    pub fn new() -> (r: Self)
        ensures
            r.include_rooms@.len() == 0,
            r.exclude_rooms@.len() == 0,
            r.exclude_connection_ids@.len() == 0,
    {
        Self {
            include_rooms: Vec::new(),
            exclude_rooms: Vec::new(),
            exclude_connection_ids: Vec::new(),
        }
    }

    /// Restricts the broadcast to the named rooms (unioned with rooms
    /// named before).
    pub fn to(self, room_names: &Vec<String>) -> (r: Self)
        ensures
            r.include_rooms@ == self.include_rooms@ + room_names@,
            r.exclude_rooms@ == self.exclude_rooms@,
            r.exclude_connection_ids@ == self.exclude_connection_ids@,
    {
        let mut op = self;
        let n = room_names.len();
        let mut k: usize = 0;
        while k < n
            invariant
                k <= n,
                n == room_names@.len(),
                op.include_rooms@ == self.include_rooms@ + room_names@.take(k as int),
                op.exclude_rooms@ == self.exclude_rooms@,
                op.exclude_connection_ids@ == self.exclude_connection_ids@,
            decreases n - k,
        {
            op.include_rooms.push(room_names[k].clone());
            proof {
                assert(room_names@.take(k + 1) == room_names@.take(k as int).push(
                    room_names@[k as int],
                ));
            }
            k += 1;
        }
        proof {
            assert(room_names@.take(n as int) == room_names@);
        }
        op
    }

    /// Excludes the named rooms from the broadcast.
    pub fn except(self, room_names: &Vec<String>) -> (r: Self)
        ensures
            r.include_rooms@ == self.include_rooms@,
            r.exclude_rooms@ == self.exclude_rooms@ + room_names@,
            r.exclude_connection_ids@ == self.exclude_connection_ids@,
    {
        let mut op = self;
        let n = room_names.len();
        let mut k: usize = 0;
        while k < n
            invariant
                k <= n,
                n == room_names@.len(),
                op.exclude_rooms@ == self.exclude_rooms@ + room_names@.take(k as int),
                op.include_rooms@ == self.include_rooms@,
                op.exclude_connection_ids@ == self.exclude_connection_ids@,
            decreases n - k,
        {
            op.exclude_rooms.push(room_names[k].clone());
            proof {
                assert(room_names@.take(k + 1) == room_names@.take(k as int).push(
                    room_names@[k as int],
                ));
            }
            k += 1;
        }
        proof {
            assert(room_names@.take(n as int) == room_names@);
        }
        op
    }

    /// Excludes single connections from the broadcast.
    pub fn except_connection_ids(self, connection_ids: &Vec<u64>) -> (r: Self)
        ensures
            r.include_rooms@ == self.include_rooms@,
            r.exclude_rooms@ == self.exclude_rooms@,
            r.exclude_connection_ids@ == self.exclude_connection_ids@ + connection_ids@,
    {
        let mut op = self;
        let n = connection_ids.len();
        let mut k: usize = 0;
        while k < n
            invariant
                k <= n,
                n == connection_ids@.len(),
                op.exclude_connection_ids@ == self.exclude_connection_ids@ + connection_ids@.take(
                    k as int,
                ),
                op.include_rooms@ == self.include_rooms@,
                op.exclude_rooms@ == self.exclude_rooms@,
            decreases n - k,
        {
            op.exclude_connection_ids.push(connection_ids[k]);
            proof {
                assert(connection_ids@.take(k + 1) == connection_ids@.take(k as int).push(
                    connection_ids@[k as int],
                ));
            }
            k += 1;
        }
        proof {
            assert(connection_ids@.take(n as int) == connection_ids@);
        }
        op
    }

    /// Resolves the targets of this broadcast against the namespace, in
    /// ascending id order and without duplicates: exactly the ids of the
    /// included rooms (or the whole namespace), minus the excluded rooms,
    /// minus the excluded ids.
    pub fn resolve_targets(&self, ns: &WsIoServerNamespace) -> (r: Vec<u64>)
        requires
            ns.wf(),
        ensures
            forall|x: u64| r@.contains(x) <==> self.is_target(*ns, x),
            forall|i: int, j: int| 0 <= i < j < r@.len() ==> r@[i] < r@[j],
    {
        let mut base: roaring::RoaringTreemap;
        if self.include_rooms.len() == 0 {
            base = id_set_clone(&ns.connection_ids);
        } else {
            base = id_set_new();
            let n = self.include_rooms.len();
            let mut k: usize = 0;
            while k < n
                invariant
                    k <= n,
                    ns.wf(),
                    n == self.include_rooms@.len(),
                    included_rooms_collected(*self, *ns, id_set_contents(base), k as int),
                decreases n - k,
            {
                match ns.find_room(self.include_rooms[k].as_str()) {
                    Some(a) => {
                        let ghost pre = id_set_contents(base);
                        id_set_union_with(&mut base, &ns.rooms[a].members);
                        proof {
                            let name = self.include_rooms@[k as int]@;
                            assert forall|x: u64|
                                id_set_contents(base).contains(x) <==> (pre.contains(x)
                                    || ns.spec_room_has(name, x)) by {
                                if id_set_contents(ns.rooms@[a as int].members).contains(x) {
                                    assert(ns.spec_room_has(name, x));
                                }
                                if ns.spec_room_has(name, x) {
                                    let b = choose|b: int|
                                        0 <= b < ns.rooms@.len() && ns.rooms@[b].name@ == name
                                            && id_set_contents(ns.rooms@[b].members).contains(x);
                                    assert(b == a) by {
                                        if b != a {
                                            assert(ns.rooms@[b].name@ == ns.rooms@[a as int].name@);
                                        }
                                    }
                                }
                            }
                        }
                    },
                    None => {
                        proof {
                            let name = self.include_rooms@[k as int]@;
                            assert forall|x: u64| !ns.spec_room_has(name, x) by {
                                if ns.spec_room_has(name, x) {
                                    assert(ns.spec_has_room(name));
                                }
                            }
                        }
                    },
                }
                proof {
                    let name = self.include_rooms@[k as int]@;
                    assert forall|x: u64|
                        #![trigger id_set_contents(base).contains(x)]
                        id_set_contents(base).contains(x) <==> (exists|j: int|
                            0 <= j < k + 1 && ns.spec_room_has(self.include_rooms@[j]@, x)) by {
                        if id_set_contents(base).contains(x) {
                            if exists|j: int|
                                0 <= j < k && ns.spec_room_has(self.include_rooms@[j]@, x) {
                                let j = choose|j: int|
                                    0 <= j < k && ns.spec_room_has(self.include_rooms@[j]@, x);
                                assert(0 <= j < k + 1 && ns.spec_room_has(
                                    self.include_rooms@[j]@,
                                    x,
                                ));
                            } else {
                                assert(ns.spec_room_has(name, x));
                                assert(0 <= k < k + 1 && ns.spec_room_has(
                                    self.include_rooms@[k as int]@,
                                    x,
                                ));
                            }
                        }
                        if exists|j: int|
                            0 <= j < k + 1 && ns.spec_room_has(self.include_rooms@[j]@, x) {
                            let j = choose|j: int|
                                0 <= j < k + 1 && ns.spec_room_has(self.include_rooms@[j]@, x);
                            if j < k {
                                assert(exists|j2: int|
                                    0 <= j2 < k && ns.spec_room_has(self.include_rooms@[j2]@, x));
                                assert(id_set_contents(base).contains(x));
                            } else {
                                assert(ns.spec_room_has(name, x));
                                assert(id_set_contents(base).contains(x));
                            }
                        }
                    }
                }
                proof {
                    assert(included_rooms_collected(*self, *ns, id_set_contents(base), k + 1));
                }
                k += 1;
            }
        }
        let n = self.exclude_rooms.len();
        let ghost base0 = id_set_contents(base);
        let mut k: usize = 0;
        while k < n
            invariant
                k <= n,
                ns.wf(),
                n == self.exclude_rooms@.len(),
                excluded_rooms_removed(*self, *ns, base0, id_set_contents(base), k as int),
            decreases n - k,
        {
            match ns.find_room(self.exclude_rooms[k].as_str()) {
                Some(a) => {
                    let ghost pre = id_set_contents(base);
                    id_set_difference_with(&mut base, &ns.rooms[a].members);
                    proof {
                        let name = self.exclude_rooms@[k as int]@;
                        assert forall|x: u64|
                            #![trigger id_set_contents(base).contains(x)]
                            id_set_contents(base).contains(x) <==> (base0.contains(x) && !(exists|
                                j: int,
                            |
                                0 <= j < k + 1 && ns.spec_room_has(
                                    self.exclude_rooms@[j]@,
                                    x,
                                ))) by {
                            assert(pre.contains(x) <==> (base0.contains(x) && !(exists|j0: int|
                                0 <= j0 < k && ns.spec_room_has(self.exclude_rooms@[j0]@, x))));
                            assert(id_set_contents(ns.rooms@[a as int].members).contains(x)
                                <==> ns.spec_room_has(name, x)) by {
                                if ns.spec_room_has(name, x) {
                                    let b = choose|b: int|
                                        0 <= b < ns.rooms@.len() && ns.rooms@[b].name@ == name
                                            && id_set_contents(ns.rooms@[b].members).contains(x);
                                    assert(b == a) by {
                                        if b != a {
                                            assert(ns.rooms@[b].name@ == ns.rooms@[a as int].name@);
                                        }
                                    }
                                }
                            }
                            assert(id_set_contents(base).contains(x) <==> (pre.contains(x)
                                && !ns.spec_room_has(name, x)));
                            assert(pre.contains(x) <==> (base0.contains(x) && !(exists|j: int|
                                0 <= j < k && ns.spec_room_has(self.exclude_rooms@[j]@, x))));
                            assert((exists|j: int|
                                0 <= j < k + 1 && ns.spec_room_has(self.exclude_rooms@[j]@, x))
                                <==> ((exists|j: int|
                                0 <= j < k && ns.spec_room_has(self.exclude_rooms@[j]@, x))
                                || ns.spec_room_has(name, x))) by {
                                if exists|j: int|
                                    0 <= j < k + 1 && ns.spec_room_has(self.exclude_rooms@[j]@, x) {
                                    let j = choose|j: int|
                                        0 <= j < k + 1 && ns.spec_room_has(
                                            self.exclude_rooms@[j]@,
                                            x,
                                        );
                                    if j < k {
                                        assert(exists|j2: int|
                                            0 <= j2 < k && ns.spec_room_has(
                                                self.exclude_rooms@[j2]@,
                                                x,
                                            ));
                                    } else {
                                        assert(ns.spec_room_has(name, x));
                                    }
                                }
                                if ns.spec_room_has(name, x) {
                                    assert(0 <= k < k + 1 && ns.spec_room_has(
                                        self.exclude_rooms@[k as int]@,
                                        x,
                                    ));
                                }
                                if exists|j: int|
                                    0 <= j < k && ns.spec_room_has(self.exclude_rooms@[j]@, x) {
                                    let j = choose|j: int|
                                        0 <= j < k && ns.spec_room_has(self.exclude_rooms@[j]@, x);
                                    assert(0 <= j < k + 1 && ns.spec_room_has(
                                        self.exclude_rooms@[j]@,
                                        x,
                                    ));
                                }
                            }
                        }
                        assert(excluded_rooms_removed(*self, *ns, base0, id_set_contents(base), k + 1));
                    }
                },
                None => {
                    proof {
                        let name = self.exclude_rooms@[k as int]@;
                        assert forall|x: u64|
                            #![trigger id_set_contents(base).contains(x)]
                            id_set_contents(base).contains(x) <==> (base0.contains(x) && !(exists|
                                j: int,
                            |
                                0 <= j < k + 1 && ns.spec_room_has(
                                    self.exclude_rooms@[j]@,
                                    x,
                                ))) by {
                            assert(!ns.spec_room_has(name, x)) by {
                                if ns.spec_room_has(name, x) {
                                    assert(ns.spec_has_room(name));
                                }
                            }
                            assert((exists|j: int|
                                0 <= j < k + 1 && ns.spec_room_has(self.exclude_rooms@[j]@, x))
                                <==> (exists|j: int|
                                0 <= j < k && ns.spec_room_has(self.exclude_rooms@[j]@, x))) by {
                                if exists|j: int|
                                    0 <= j < k + 1 && ns.spec_room_has(self.exclude_rooms@[j]@, x) {
                                    let j = choose|j: int|
                                        0 <= j < k + 1 && ns.spec_room_has(
                                            self.exclude_rooms@[j]@,
                                            x,
                                        );
                                    if j < k {
                                        assert(exists|j2: int|
                                            0 <= j2 < k && ns.spec_room_has(
                                                self.exclude_rooms@[j2]@,
                                                x,
                                            ));
                                    } else {
                                        assert(ns.spec_room_has(name, x));
                                    }
                                }
                                if exists|j: int|
                                    0 <= j < k && ns.spec_room_has(self.exclude_rooms@[j]@, x) {
                                    let j = choose|j: int|
                                        0 <= j < k && ns.spec_room_has(self.exclude_rooms@[j]@, x);
                                    assert(0 <= j < k + 1 && ns.spec_room_has(
                                        self.exclude_rooms@[j]@,
                                        x,
                                    ));
                                }
                            }
                        }
                        assert(excluded_rooms_removed(*self, *ns, base0, id_set_contents(base), k + 1));
                    }
                },
            }
            k += 1;
        }
        let m = self.exclude_connection_ids.len();
        let ghost base1 = id_set_contents(base);
        let mut k2: usize = 0;
        while k2 < m
            invariant
                k2 <= m,
                m == self.exclude_connection_ids@.len(),
                excluded_ids_removed(*self, base1, id_set_contents(base), k2 as int),
            decreases m - k2,
        {
            let ghost pre2 = id_set_contents(base);
            id_set_remove(&mut base, self.exclude_connection_ids[k2]);
            proof {
                let e = self.exclude_connection_ids@[k2 as int];
                let taken = self.exclude_connection_ids@.take(k2 as int);
                let taken1 = self.exclude_connection_ids@.take(k2 + 1);
                assert(taken1 == taken.push(e));
                assert forall|x: u64|
                    #![trigger id_set_contents(base).contains(x)]
                    id_set_contents(base).contains(x) <==> (base1.contains(x) && !taken1.contains(
                        x,
                    )) by {
                    assert(excluded_ids_removed(*self, base1, pre2, k2 as int));
                    assert(taken1.contains(x) <==> (taken.contains(x) || x == e)) by {
                        if taken1.contains(x) {
                            let j = choose|j: int| 0 <= j < taken1.len() && taken1[j] == x;
                            if j < taken.len() {
                                assert(taken[j] == x);
                            }
                        }
                        if taken.contains(x) {
                            let j = choose|j: int| 0 <= j < taken.len() && taken[j] == x;
                            assert(taken1[j] == x);
                        }
                        if x == e {
                            assert(taken1[taken.len() as int] == x);
                        }
                    }
                }
                assert(excluded_ids_removed(*self, base1, id_set_contents(base), k2 + 1));
            }
            k2 += 1;
        }
        proof {
            assert(self.exclude_connection_ids@.take(m as int) == self.exclude_connection_ids@);
        }
        let r = id_set_to_vec(&base);
        proof {
            assert forall|x: u64| r@.contains(x) <==> self.is_target(*ns, x) by {
                assert(r@.to_set().contains(x) == r@.contains(x));
                assert(id_set_contents(base).contains(x) == r@.to_set().contains(x));
                assert(id_set_contents(base).contains(x) <==> (base1.contains(x)
                    && !self.exclude_connection_ids@.contains(x)));
                assert(base1.contains(x) <==> (base0.contains(x) && !(exists|j: int|
                    0 <= j < self.exclude_rooms@.len() && ns.spec_room_has(
                        self.exclude_rooms@[j]@,
                        x,
                    ))));
                if self.include_rooms@.len() > 0 {
                    assert(base0.contains(x) <==> (exists|j: int|
                        0 <= j < self.include_rooms@.len() && ns.spec_room_has(
                            self.include_rooms@[j]@,
                            x,
                        )));
                } else {
                    assert(base0.contains(x) == ns.member_ids().contains(x));
                }
            }
        }
        r
    }

    /// Encodes an event packet once and resolves the targets it should be
    /// fanned out to. Fails with a status error when the namespace is not
    /// running; while the namespace runs it succeeds.
    pub fn emit(&self, ns: &WsIoServerNamespace, event: &str, data: Option<Vec<u8>>) -> (r: Result<
        (Vec<u8>, Vec<u64>),
        WsIoError,
    >)
        requires
            ns.wf(),
        ensures
            ns.status.current() != NamespaceStatus::Running <==> (r matches Err(e) && e
                == WsIoError::Status),
            ns.status.current() == NamespaceStatus::Running ==> r is Ok,
            r matches Ok(p) ==> ({
                &&& p.0@ == wire_bytes(
                    ns.packet_codec,
                    packet_type_code(WsIoPacketType::Event),
                    Some(event@),
                    opt_bytes_view(data),
                )
                &&& forall|x: u64| p.1@.contains(x) <==> self.is_target(*ns, x)
                &&& forall|i: int, j: int| 0 <= i < j < p.1@.len() ==> p.1@[i] < p.1@[j]
            }),
    {
        if let Err(e) = ns.ensure_running() {
            return Err(e);
        }
        let packet = WsIoPacket::new_event(event, data);
        let bytes = match ns.packet_codec.encode(&packet) {
            Ok(b) => b,
            Err(e) => {
                proof {
                    assert(false);
                }
                return Err(e);
            },
        };
        let targets = self.resolve_targets(ns);
        Ok((bytes, targets))
    }

    /// Encodes a `Disconnect` packet once and resolves the targets it
    /// should be fanned out to; the call always succeeds.
    pub fn disconnect(&self, ns: &WsIoServerNamespace) -> (r: Result<(Vec<u8>, Vec<u64>), WsIoError>)
        requires
            ns.wf(),
        ensures
            r is Ok,
            r matches Ok(p) ==> ({
                &&& p.0@ == wire_bytes(
                    ns.packet_codec,
                    packet_type_code(WsIoPacketType::Disconnect),
                    None,
                    None,
                )
                &&& forall|x: u64| p.1@.contains(x) <==> self.is_target(*ns, x)
            }),
    {
        let packet = WsIoPacket::new_disconnect();
        let bytes = match ns.packet_codec.encode(&packet) {
            Ok(b) => b,
            Err(e) => {
                proof {
                    assert(false);
                }
                return Err(e);
            },
        };
        let targets = self.resolve_targets(ns);
        Ok((bytes, targets))
    }

    /// Resolves the targets whose connections should be closed outright;
    /// no packet is sent.
    pub fn close(&self, ns: &WsIoServerNamespace) -> (r: Vec<u64>)
        requires
            ns.wf(),
        ensures
            forall|x: u64| r@.contains(x) <==> self.is_target(*ns, x),
    {
        self.resolve_targets(ns)
    }
}


/// A broadcast with no room inclusions, no room exclusions and no id
/// exclusions targets exactly the namespace's broadcast-visible ids, and
/// so reaches every connection that is `Ready` at resolution time.
pub proof fn lemma_plain_broadcast_reaches_every_ready_connection(
    op: WsIoServerNamespaceBroadcastOperator,
    ns: WsIoServerNamespace,
    i: int,
)
    requires
        ns.wf(),
        op.include_rooms@.len() == 0,
        op.exclude_rooms@.len() == 0,
        op.exclude_connection_ids@.len() == 0,
        0 <= i < ns.connections@.len(),
        ns.connections@[i].state.current() == crate::connection::ConnectionState::Ready,
    ensures
        forall|x: u64| op.is_target(ns, x) <==> ns.member_ids().contains(x),
        op.is_target(ns, ns.connections@[i].id),
{
    assert(ns.member_ids().contains(ns.connections@[i].id));
}

} // verus!
