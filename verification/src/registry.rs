use vstd::prelude::*;

verus! {

/// One registered event name: the identity token of its payload type and
/// the ids of the handlers listening to it, in registration order.
pub struct WsIoEventEntry {
    pub event: String,
    pub data_type_token: u64,
    pub handler_ids: Vec<u32>,
}

/// Bookkeeping of a per-scope event registry: which event names are
/// registered, which payload type each is bound to, and which handler ids
/// listen to each. The handler closures themselves are held by the caller,
/// keyed by the ids this registry hands out.
pub struct WsIoEventRegistry {
    pub entries: Vec<WsIoEventEntry>,
    pub next_handler_id: u32,
}

/// What registering a handler does: when the event already had an entry,
/// that entry gains `id` and keeps its token; otherwise a fresh entry for
/// the event appears at the end, bound to `token`, with `id` as its only
/// handler. All other entries stay as they were.
pub open spec fn on_updates_entries(
    pre: Seq<WsIoEventEntry>,
    post: Seq<WsIoEventEntry>,
    event: Seq<char>,
    token: u64,
    id: u32,
) -> bool {
    if exists|i: int| 0 <= i < pre.len() && pre[i].event@ == event {
        exists|i: int|
            #![auto]
            0 <= i < pre.len() && pre[i].event@ == event && post.len() == pre.len() && (forall|
                j: int,
            |
                0 <= j < pre.len() && j != i ==> post[j] == pre[j]) && post[i].event@ == event
                && post[i].data_type_token == pre[i].data_type_token && post[i].handler_ids@
                == pre[i].handler_ids@.push(id)
    } else {
        post.len() == pre.len() + 1 && (forall|j: int| 0 <= j < pre.len() ==> post[j] == pre[j])
            && post.last().event@ == event && post.last().data_type_token == token
            && post.last().handler_ids@ == seq![id]
    }
}

/// What unregistering a whole event does: the entry for the event, if any,
/// is removed and nothing else changes.
pub open spec fn off_updates_entries(
    pre: Seq<WsIoEventEntry>,
    post: Seq<WsIoEventEntry>,
    event: Seq<char>,
) -> bool {
    if exists|i: int| 0 <= i < pre.len() && pre[i].event@ == event {
        exists|i: int| #![auto] 0 <= i < pre.len() && pre[i].event@ == event && post == pre.remove(i)
    } else {
        post == pre
    }
}

/// What unregistering a single handler does: when the event has an entry
/// and it holds `handler_id`, that one id is removed; an entry left empty
/// disappears; in every other case nothing changes.
pub open spec fn off_handler_updates_entries(
    pre: Seq<WsIoEventEntry>,
    post: Seq<WsIoEventEntry>,
    event: Seq<char>,
    handler_id: u32,
) -> bool {
    if exists|i: int| 0 <= i < pre.len() && pre[i].event@ == event {
        exists|i: int|
            #![trigger pre[i]]
            0 <= i < pre.len() && pre[i].event@ == event && (if !pre[i].handler_ids@.contains(
                handler_id,
            ) {
                post == pre
            } else if pre[i].handler_ids@.len() == 1 {
                post == pre.remove(i)
            } else {
                post.len() == pre.len() && (forall|j: int|
                    0 <= j < pre.len() && j != i ==> post[j] == pre[j]) && post[i].event@ == event
                    && post[i].data_type_token == pre[i].data_type_token && post[i].handler_ids@
                    == pre[i].handler_ids@.remove(pre[i].handler_ids@.index_of(handler_id))
            })
    } else {
        post == pre
    }
}

impl WsIoEventRegistry {
    /// Well-formed: event names are unique, no entry is empty, handler ids
    /// are unique within an entry, and every id is below the counter.
    pub open spec fn wf(self) -> bool {
        &&& forall|i: int, j: int|
            0 <= i < j < self.entries@.len() ==> self.entries@[i].event@ != self.entries@[j].event@
        &&& forall|i: int| 0 <= i < self.entries@.len() ==> self.entries@[i].handler_ids@.len() > 0
        &&& forall|i: int, a: int, b: int|
            0 <= i < self.entries@.len() && 0 <= a < b < self.entries@[i].handler_ids@.len()
                ==> self.entries@[i].handler_ids@[a] != self.entries@[i].handler_ids@[b]
        &&& forall|i: int, a: int|
            0 <= i < self.entries@.len() && 0 <= a < self.entries@[i].handler_ids@.len()
                ==> self.entries@[i].handler_ids@[a] < self.next_handler_id
    }

    /// Whether an entry for `event` exists.
    pub open spec fn has_entry(self, event: Seq<char>) -> bool {
        exists|i: int| 0 <= i < self.entries@.len() && self.entries@[i].event@ == event
    }

    /// Whether `event` is bound to payload type `token`.
    pub open spec fn entry_token_is(self, event: Seq<char>, token: u64) -> bool {
        exists|i: int|
            0 <= i < self.entries@.len() && self.entries@[i].event@ == event
                && self.entries@[i].data_type_token == token
    }

    /// Whether the handlers of `event` are exactly `ids`.
    pub open spec fn entry_handlers_are(self, event: Seq<char>, ids: Seq<u32>) -> bool {
        exists|i: int|
            0 <= i < self.entries@.len() && self.entries@[i].event@ == event
                && self.entries@[i].handler_ids@ == ids
    }

    /// An empty registry.
    pub fn new() -> (r: Self)
        ensures
            r.wf(),
            r.entries@.len() == 0,
            r.next_handler_id == 0,
    {
        Self { entries: Vec::new(), next_handler_id: 0 }
    }

    /// The index of the entry for `event`, if one exists.
    fn find_entry(&self, event: &str) -> (r: Option<usize>)
        ensures
            match r {
                Some(i) => i < self.entries@.len() && self.entries@[i as int].event@ == event@,
                None => !self.has_entry(event@),
            },
    {
        let n = self.entries.len();
        let mut i: usize = 0;
        while i < n
            invariant
                i <= n,
                n == self.entries@.len(),
                forall|j: int| 0 <= j < i ==> self.entries@[j].event@ != event@,
            decreases n - i,
        {
            if self.entries[i].event.as_str().eq(event) {
                return Some(i);
            }
            i += 1;
        }
        None
    }

    /// The payload-type token `event` is bound to, if it is registered.
    pub fn event_data_token(&self, event: &str) -> (r: Option<u64>)
        ensures
            match r {
                Some(t) => self.entry_token_is(event@, t),
                None => !self.has_entry(event@),
            },
    {
        match self.find_entry(event) {
            Some(i) => Some(self.entries[i].data_type_token),
            None => None,
        }
    }

    /// Registers one more handler for `event` and returns its fresh id.
    ///
    /// Every registration under one event name must carry the payload type
    /// token the entry already holds: each event name is bound to exactly
    /// one payload type for the life of its entry. On the first
    /// registration the entry is created and bound to `data_type_token`.
    pub fn on(&mut self, event: &str, data_type_token: u64) -> (id: u32)
        requires
            old(self).wf(),
            old(self).next_handler_id < u32::MAX,
            forall|i: int|
                0 <= i < old(self).entries@.len() && old(self).entries@[i].event@ == event@
                    ==> old(self).entries@[i].data_type_token == data_type_token,
        ensures
            final(self).wf(),
            id == old(self).next_handler_id,
            final(self).next_handler_id == old(self).next_handler_id + 1,
            final(self).entry_token_is(event@, data_type_token),
            on_updates_entries(old(self).entries@, final(self).entries@, event@, data_type_token, id),
    {
        let id = self.next_handler_id;
        self.next_handler_id = id + 1;
        match self.find_entry(event) {
            Some(i) => {
                self.entries[i].handler_ids.push(id);
                proof {
                    let pre = old(self).entries@;
                    let post = self.entries@;
                    assert(post[i as int].handler_ids@ == pre[i as int].handler_ids@.push(id));
                    let ii = i as int;
                    assert forall|a: int, b: int|
                        0 <= a < b < post[ii].handler_ids@.len() implies post[ii].handler_ids@[a]
                        != post[ii].handler_ids@[b] by {
                        if b == post[i as int].handler_ids@.len() - 1 {
                            assert(pre[i as int].handler_ids@[a] < old(self).next_handler_id);
                        }
                    }
                    assert(post[i as int].event@ == event@ && post[i as int].data_type_token
                        == data_type_token);
                }
            },
            None => {
                let mut handler_ids: Vec<u32> = Vec::new();
                handler_ids.push(id);
                self.entries.push(
                    WsIoEventEntry { event: event.to_owned(), data_type_token, handler_ids },
                );
                proof {
                    let post = self.entries@;
                    let last = post.len() - 1;
                    assert(post[last].event@ == event@ && post[last].data_type_token
                        == data_type_token && post[last].handler_ids@ == seq![id]);
                }
            },
        }
        id
    }

    /// Removes the entry for `event` and all its handlers.
    pub fn off(&mut self, event: &str)
        requires
            old(self).wf(),
        ensures
            final(self).wf(),
            !final(self).has_entry(event@),
            final(self).next_handler_id == old(self).next_handler_id,
            off_updates_entries(old(self).entries@, final(self).entries@, event@),
    {
        match self.find_entry(event) {
            Some(i) => {
                self.entries.remove(i);
                assert forall|k: int|
                    0 <= k < self.entries@.len() implies self.entries@[k].event@ != event@ by {
                    if k < i {
                        assert(self.entries@[k] == old(self).entries@[k]);
                    } else {
                        assert(self.entries@[k] == old(self).entries@[k + 1]);
                    }
                }
            },
            None => {},
        }
    }

    /// Removes one handler of `event` by id; when the last handler of the
    /// entry goes, the entry goes with it.
    pub fn off_by_handler_id(&mut self, event: &str, handler_id: u32)
        requires
            old(self).wf(),
        ensures
            final(self).wf(),
            final(self).next_handler_id == old(self).next_handler_id,
            off_handler_updates_entries(old(self).entries@, final(self).entries@, event@, handler_id),
    {
        let entry_index = match self.find_entry(event) {
            Some(i) => i,
            None => {
                return ;
            },
        };
        let n = self.entries[entry_index].handler_ids.len();
        let mut a: usize = 0;
        let mut found: Option<usize> = None;
        while a < n && found.is_none()
            invariant
                a <= n,
                entry_index < self.entries@.len(),
                n == self.entries@[entry_index as int].handler_ids@.len(),
                match found {
                    Some(p) => p < n && self.entries@[entry_index as int].handler_ids@[p as int]
                        == handler_id,
                    None => forall|j: int|
                        0 <= j < a ==> self.entries@[entry_index as int].handler_ids@[j]
                            != handler_id,
                },
            decreases n - a,
        {
            if self.entries[entry_index].handler_ids[a] == handler_id {
                found = Some(a);
            }
            a += 1;
        }
        match found {
            None => {
                proof {
                    let pre = old(self).entries@;
                    let ei = entry_index as int;
                    assert(!pre[ei].handler_ids@.contains(handler_id));
                    assert(pre[ei].event@ == event@);
                    assert(off_handler_updates_entries(pre, self.entries@, event@, handler_id));
                }
            },
            Some(p) => {
                proof {
                    let ids = old(self).entries@[entry_index as int].handler_ids@;
                    assert(ids.contains(handler_id)) by {
                        assert(ids[p as int] == handler_id);
                    }
                    assert(ids.index_of(handler_id) == p as int) by {
                        let q = ids.index_of(handler_id);
                        assert(ids[q] == handler_id);
                    }
                }
                if self.entries[entry_index].handler_ids.len() == 1 {
                    self.entries.remove(entry_index);
                    proof {
                        let pre = old(self).entries@;
                        let ei = entry_index as int;
                        assert(self.entries@ == pre.remove(ei));
                        assert(pre[ei].handler_ids@.contains(handler_id));
                        assert(off_handler_updates_entries(pre, self.entries@, event@, handler_id));
                        assert forall|k: int, l: int|
                            0 <= k < l < self.entries@.len() implies self.entries@[k].event@
                            != self.entries@[l].event@ by {
                            let pk = if k < ei { k } else { k + 1 };
                            let pl = if l < ei { l } else { l + 1 };
                            assert(self.entries@[k] == pre[pk] && self.entries@[l] == pre[pl]);
                        }
                    }
                } else {
                    self.entries[entry_index].handler_ids.remove(p);
                    proof {
                        let pre = old(self).entries@;
                        let post = self.entries@;
                        let pre_ids = pre[entry_index as int].handler_ids@;
                        let post_ids = post[entry_index as int].handler_ids@;
                        assert(post_ids == pre_ids.remove(p as int));
                        assert forall|a2: int, b2: int|
                            0 <= a2 < b2 < post_ids.len() implies post_ids[a2] != post_ids[b2] by {
                            assert(post_ids[a2] == if a2 < p {
                                pre_ids[a2]
                            } else {
                                pre_ids[a2 + 1]
                            });
                            assert(post_ids[b2] == if b2 < p {
                                pre_ids[b2]
                            } else {
                                pre_ids[b2 + 1]
                            });
                        }
                        assert forall|a2: int|
                            0 <= a2 < post_ids.len() implies post_ids[a2] < self.next_handler_id by {
                            assert(post_ids[a2] == if a2 < p {
                                pre_ids[a2]
                            } else {
                                pre_ids[a2 + 1]
                            });
                        }
                        assert(pre[entry_index as int].event@ == event@);
                        assert(off_handler_updates_entries(pre, post, event@, handler_id));
                    }
                }
            },
        }
    }

    /// Which handlers actually run once the payload decode has been
    /// attempted: all of the snapshot when it succeeded, none when it
    /// failed — a decode failure drops the packet silently and never
    /// touches any other state.
    pub fn handlers_after_payload_decode(decode_ok: bool, handler_ids: Vec<u32>) -> (r: Vec<u32>)
        ensures
            decode_ok ==> r == handler_ids,
            !decode_ok ==> r@.len() == 0,
    {
        if decode_ok {
            handler_ids
        } else {
            Vec::new()
        }
    }

    /// The dispatch plan for an incoming event packet: `None` when no entry
    /// is registered under the name (the packet is dropped without error),
    /// otherwise the snapshot of handler ids to run.
    pub fn dispatch_event_packet(&self, event: &str) -> (r: Option<Vec<u32>>)
        ensures
            r is Some <==> self.has_entry(event@),
            r matches Some(ids) ==> self.entry_handlers_are(event@, ids@),
    {
        match self.find_entry(event) {
            Some(i) => {
                let mut ids: Vec<u32> = Vec::new();
                let n = self.entries[i].handler_ids.len();
                let mut a: usize = 0;
                while a < n
                    invariant
                        a <= n,
                        i < self.entries@.len(),
                        n == self.entries@[i as int].handler_ids@.len(),
                        ids@ == self.entries@[i as int].handler_ids@.take(a as int),
                    decreases n - a,
                {
                    ids.push(self.entries[i].handler_ids[a]);
                    a += 1;
                }
                assert(ids@ == self.entries@[i as int].handler_ids@);
                Some(ids)
            },
            None => None,
        }
    }
}

} // verus!
