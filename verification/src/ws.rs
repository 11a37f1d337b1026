//! The coordinator: session registry, room membership, and the
//! persist-then-broadcast pipeline.
//!
//! [`ChatServer`] is the single logical owner of all connection state. The
//! runtime around it delivers one event at a time — [`Connect`],
//! [`Disconnect`], [`ClientMessage`], the completion of a store write — and
//! performs the I/O the coordinator decides on: submitting a
//! [`StoreRequest`] to the durable store and pushing frames to the sinks
//! named by [`Delivery`] values. A sink is identified here by a plain
//! token; the runtime maps tokens to live transport handles.

use vstd::prelude::*;
use std::collections::HashMap;
use crate::models::Message;

verus! {

broadcast use vstd::std_specs::hash::group_hash_axioms;

/// One outbound frame, ready to be pushed to a single live connection.
pub struct WsMessage(pub String);

/// A connection was admitted: `user_id` joins `room_id`, and `addr` is the
/// token of the sink that can reach the new connection.
pub struct Connect {
    pub addr: u64,
    pub room_id: u128,
    pub user_id: u128,
}

/// A connection ended (close frame, protocol error or transport drop).
pub struct Disconnect {
    pub room_id: u128,
    pub user_id: u128,
}

/// An inbound text frame from an admitted connection's reader.
pub struct ClientMessage {
    pub room_id: u128,
    pub user_id: u128,
    pub content: String,
}

/// A persisted record, re-entering the coordinator for fan-out.
pub struct BroadcastMessage(pub Message);

/// What the ingestion pipeline submits to the durable store; the store
/// assigns `id` and `created_at` and answers with the full [`Message`].
pub struct StoreRequest {
    pub room_id: u128,
    pub user_id: u128,
    pub content: String,
}

/// The durable store failed to persist a submitted message.
pub struct StoreError;

/// One delivery of a broadcast: push the serialized record to the sink
/// `addr`, which belongs to `user_id`.
#[derive(Clone, Copy, PartialEq, Eq, Structural, Debug)]
pub struct Delivery {
    pub addr: u64,
    pub user_id: u128,
}

/// Mathematical state of the coordinator: which user owns which live sink,
/// and the members of each room in the order they joined.
#[verifier::ext_equal]
pub struct ServerView {
    pub sessions: Map<u128, u64>,
    pub rooms: Map<u128, Seq<u128>>,
}

impl ServerView {
    /// The state at process start: no sessions, no rooms.
    pub open spec fn init() -> ServerView {
        ServerView { sessions: Map::empty(), rooms: Map::empty() }
    }

    /// The members of `room_id`, in join order; empty for an unknown room.
    pub open spec fn members(self, room_id: u128) -> Seq<u128> {
        if self.rooms.contains_key(room_id) {
            self.rooms[room_id]
        } else {
            Seq::empty()
        }
    }

    /// The set of users currently connected to `room_id`.
    pub open spec fn member_set(self, room_id: u128) -> Set<u128> {
        self.members(room_id).to_set()
    }

    /// No user is listed twice in one room.
    pub open spec fn wf(self) -> bool {
        forall|r: u128|
            self.rooms.contains_key(r) ==> (#[trigger] self.rooms[r]).no_duplicates()
    }
}

/// How [`Connect`] changes the state: the user's sink is inserted (replacing
/// any prior one, last write wins) and the user joins the room's member list
/// unless already on it.
pub open spec fn connect_step(v: ServerView, user_id: u128, room_id: u128, addr: u64) -> ServerView {
    let old_members = v.members(room_id);
    let new_members = if old_members.contains(user_id) {
        old_members
    } else {
        old_members.push(user_id)
    };
    ServerView {
        sessions: v.sessions.insert(user_id, addr),
        rooms: v.rooms.insert(room_id, new_members),
    }
}

/// How [`Disconnect`] changes the state: the user's sink is dropped and the
/// user leaves the room's member list; both are no-ops if absent. A room
/// entry, once created, stays (possibly empty), as a live coordinator keeps
/// the room key after its last member leaves.
pub open spec fn disconnect_step(v: ServerView, user_id: u128, room_id: u128) -> ServerView {
    ServerView {
        sessions: v.sessions.remove(user_id),
        rooms: if v.rooms.contains_key(room_id) {
            v.rooms.insert(room_id, v.rooms[room_id].remove_value(user_id))
        } else {
            v.rooms
        },
    }
}

/// The coordinator's state: `sessions` maps a user id to the token of its
/// live sink; `rooms` maps a room id to its current members in join order.
pub struct ChatServer {
    sessions: HashMap<u128, u64>,
    rooms: HashMap<u128, Vec<u128>>,
}

impl View for ChatServer {
    type V = ServerView;

    closed spec fn view(&self) -> ServerView {
        ServerView {
            sessions: self.sessions@,
            rooms: self.rooms@.map_values(|m: Vec<u128>| m@),
        }
    }
}

/// The deliveries a broadcast performs, given a room's member list and the
/// session registry: one per member who still owns a live sink, in member
/// order, addressed to that sink.
pub open spec fn fanout(members: Seq<u128>, sessions: Map<u128, u64>) -> Seq<Delivery>
    decreases members.len(),
{
    if members.len() == 0 {
        Seq::empty()
    } else {
        let rest = fanout(members.drop_last(), sessions);
        let u = members.last();
        if sessions.contains_key(u) {
            rest.push(Delivery { addr: sessions[u], user_id: u })
        } else {
            rest
        }
    }
}

/// Whether `members` lists `user_id`.
fn contains_user(members: &Vec<u128>, user_id: u128) -> (r: bool)
    ensures
        r == members@.contains(user_id),
{
    let mut i: usize = 0;
    while i < members.len()
        invariant
            i <= members@.len(),
            forall|j: int| 0 <= j < i ==> members@[j] != user_id,
        decreases members@.len() - i,
    {
        if members[i] == user_id {
            return true;
        }
        i += 1;
    }
    false
}

impl ChatServer {
    pub open spec fn wf(&self) -> bool {
        self@.wf()
    }

    /// A coordinator with no sessions and no rooms.
    pub fn new() -> (s: ChatServer)
        ensures
            s@ == ServerView::init(),
            s.wf(),
    {
        let s = ChatServer { sessions: HashMap::new(), rooms: HashMap::new() };
        proof {
            assert(s@.rooms =~= ServerView::init().rooms);
            assert(s@ =~= ServerView::init());
        }
        s
    }

    /// Admit a connection: record the user's sink and room membership.
    pub fn connect(&mut self, msg: Connect)
        requires
            old(self).wf(),
        ensures
            final(self)@ == connect_step(old(self)@, msg.user_id, msg.room_id, msg.addr),
            final(self).wf(),
    {
        let ghost v0 = self@;
        let removed = self.rooms.remove(&msg.room_id);
        let mut members: Vec<u128> = match removed {
            Some(m) => m,
            None => Vec::new(),
        };
        if !contains_user(&members, msg.user_id) {
            members.push(msg.user_id);
        }
        self.rooms.insert(msg.room_id, members);
        self.sessions.insert(msg.user_id, msg.addr);
        proof {
            let target = connect_step(v0, msg.user_id, msg.room_id, msg.addr);
            assert(self@.rooms =~= target.rooms);
            assert(self@ =~= target);
        }
    }

    /// Remove a connection: drop the user's sink and room membership.
    /// A no-op for a user with neither (idempotent).
    pub fn disconnect(&mut self, msg: Disconnect)
        requires
            old(self).wf(),
        ensures
            final(self)@ == disconnect_step(old(self)@, msg.user_id, msg.room_id),
            final(self).wf(),
    {
        let ghost v0 = self@;
        let removed = self.rooms.remove(&msg.room_id);
        match removed {
            Some(mut members) => {
                remove_user(&mut members, msg.user_id);
                self.rooms.insert(msg.room_id, members);
            },
            None => {},
        }
        self.sessions.remove(&msg.user_id);
        proof {
            let target = disconnect_step(v0, msg.user_id, msg.room_id);
            assert(self@.rooms =~= target.rooms);
            assert(self@ =~= target);
            assert forall|r: u128| self@.rooms.contains_key(r) implies (
            #[trigger] self@.rooms[r]).no_duplicates() by {
                if r == msg.room_id && v0.rooms.contains_key(r) {
                    lemma_remove_value_no_duplicates(v0.rooms[r], msg.user_id);
                }
            }
        }
    }

    /// Ingestion, step one: turn an inbound frame into the write the store
    /// is asked to perform. Content is taken verbatim; the coordinator's
    /// state plays no part and is not touched.
    pub fn client_message(&self, msg: ClientMessage) -> (r: StoreRequest)
        ensures
            r.room_id == msg.room_id,
            r.user_id == msg.user_id,
            r.content == msg.content,
    {
        StoreRequest { room_id: msg.room_id, user_id: msg.user_id, content: msg.content }
    }

    /// Fan a persisted record out: one delivery per current member of its
    /// room who still owns a live sink, in member order. Membership and the
    /// registry are read as they stand now — at persistence completion —
    /// not as they stood at submission.
    pub fn broadcast(&self, msg: &BroadcastMessage) -> (deliveries: Vec<Delivery>)
        ensures
            deliveries@ == fanout(self@.members(msg.0.room_id), self@.sessions),
    {
        let mut out: Vec<Delivery> = Vec::new();
        let members = match self.rooms.get(&msg.0.room_id) {
            Some(m) => m,
            None => {
                return out;
            },
        };
        let ghost mseq = self@.members(msg.0.room_id);
        proof {
            assert(mseq == members@);
        }
        let mut i: usize = 0;
        while i < members.len()
            invariant
                i <= members@.len(),
                mseq == members@,
                self@.sessions == self.sessions@,
                out@ == fanout(members@.take(i as int), self@.sessions),
            decreases members@.len() - i,
        {
            let uid = members[i];
            match self.sessions.get(&uid) {
                Some(addr) => {
                    out.push(Delivery { addr: *addr, user_id: uid });
                },
                None => {},
            }
            proof {
                assert(members@.take(i + 1).drop_last() =~= members@.take(i as int));
                assert(members@.take(i + 1).last() == members@[i as int]);
            }
            i += 1;
        }
        proof {
            assert(members@.take(members@.len() as int) =~= members@);
        }
        out
    }
}

/// Ingestion, step two: what re-enters the coordinator when the store
/// answers. A persisted record goes on to broadcast; a store failure
/// suppresses the broadcast and the message is dropped.
pub fn store_complete(result: Result<Message, StoreError>) -> (r: Option<BroadcastMessage>)
    ensures
        match result {
            Ok(m) => r matches Some(b) && b.0 == m,
            Err(_) => r is None,
        },
{
    match result {
        Ok(m) => Some(BroadcastMessage(m)),
        Err(_) => None,
    }
}

/// Remove `user_id` from `members` (its first occurrence, the only one in a
/// well-formed room); leave `members` unchanged if absent.
fn remove_user(members: &mut Vec<u128>, user_id: u128)
    ensures
        final(members)@ == old(members)@.remove_value(user_id),
{
    let ghost m0 = members@;
    let mut i: usize = 0;
    while i < members.len()
        invariant
            m0 == old(members)@,
            i <= members@.len(),
            members@ == m0,
            forall|j: int| 0 <= j < i ==> members@[j] != user_id,
        decreases members@.len() - i,
    {
        if members[i] == user_id {
            members.remove(i);
            proof {
                assert(m0[i as int] == user_id);
                assert(m0.contains(user_id));
                m0.index_of_first_ensures(user_id);
                let idx = m0.index_of_first(user_id)->Some_0;
                assert(!(idx < i) && !(i < idx));
                assert(m0.index_of_first(user_id) == Some(i as int));
            }
            return ;
        }
        i += 1;
    }
    proof {
        assert(!m0.contains(user_id));
        m0.index_of_first_ensures(user_id);
    }
}

/// Every delivery of a fan-out goes to a user on the member list who holds
/// a live sink, addressed to exactly that sink.
pub proof fn lemma_fanout_sound(members: Seq<u128>, sessions: Map<u128, u64>)
    ensures
        forall|i: int|
            0 <= i < fanout(members, sessions).len() ==> {
                let d = #[trigger] fanout(members, sessions)[i];
                &&& members.contains(d.user_id)
                &&& sessions.contains_key(d.user_id)
                &&& d.addr == sessions[d.user_id]
            },
    decreases members.len(),
{
    if members.len() > 0 {
        let prefix = members.drop_last();
        lemma_fanout_sound(prefix, sessions);
        let f = fanout(members, sessions);
        let fr = fanout(prefix, sessions);
        assert forall|i: int| 0 <= i < f.len() implies {
            let d = #[trigger] f[i];
            &&& members.contains(d.user_id)
            &&& sessions.contains_key(d.user_id)
            &&& d.addr == sessions[d.user_id]
        } by {
            if i < fr.len() {
                assert(f[i] == fr[i]);
                let u = fr[i].user_id;
                let j = choose|j: int| 0 <= j < prefix.len() && prefix[j] == u;
                assert(members[j] == u);
            } else {
                assert(members[members.len() - 1] == members.last());
            }
        }
    }
}

/// A member of the room who holds a live sink is among the deliveries.
pub proof fn lemma_fanout_complete(members: Seq<u128>, sessions: Map<u128, u64>, u: u128)
    requires
        members.contains(u),
        sessions.contains_key(u),
    ensures
        exists|i: int|
            0 <= i < fanout(members, sessions).len() && (#[trigger] fanout(
                members,
                sessions,
            )[i]).user_id == u,
    decreases members.len(),
{
    let f = fanout(members, sessions);
    if members.last() == u {
        assert(f[f.len() - 1].user_id == u);
    } else {
        let j = choose|j: int| 0 <= j < members.len() && members[j] == u;
        assert(members.drop_last()[j] == u);
        lemma_fanout_complete(members.drop_last(), sessions, u);
        let fr = fanout(members.drop_last(), sessions);
        let i = choose|i: int| 0 <= i < fr.len() && fr[i].user_id == u;
        assert(f[i].user_id == u);
    }
}

/// A duplicate-free member list yields at most one delivery per user.
pub proof fn lemma_fanout_once(members: Seq<u128>, sessions: Map<u128, u64>)
    requires
        members.no_duplicates(),
    ensures
        forall|i: int, j: int|
            0 <= i < j < fanout(members, sessions).len() ==> (#[trigger] fanout(
                members,
                sessions,
            )[i]).user_id != (#[trigger] fanout(members, sessions)[j]).user_id,
    decreases members.len(),
{
    if members.len() > 0 {
        let prefix = members.drop_last();
        let last = members.last();
        lemma_fanout_once(prefix, sessions);
        lemma_fanout_sound(prefix, sessions);
        let f = fanout(members, sessions);
        let fr = fanout(prefix, sessions);
        assert forall|i: int, j: int|
            0 <= i < j < f.len() implies (#[trigger] f[i]).user_id != (#[trigger] f[j]).user_id by {
            if j == fr.len() {
                let u = fr[i].user_id;
                let k = choose|k: int| 0 <= k < prefix.len() && prefix[k] == u;
                assert(members[k] == u);
                assert(members[members.len() - 1] == last);
            }
        }
    }
}

/// Law: a successfully persisted record is delivered to exactly the set of
/// users who are members of its room and hold a live sink at the moment the
/// fan-out is computed — each of them exactly once, at their own sink.
pub proof fn lemma_broadcast_delivery_exact(v: ServerView, room_id: u128)
    requires
        v.wf(),
    ensures
        forall|i: int|
            0 <= i < fanout(v.members(room_id), v.sessions).len() ==> {
                let d = #[trigger] fanout(v.members(room_id), v.sessions)[i];
                &&& v.member_set(room_id).contains(d.user_id)
                &&& v.sessions.contains_key(d.user_id)
                &&& d.addr == v.sessions[d.user_id]
            },
        forall|u: u128|
            #[trigger] v.member_set(room_id).contains(u) && v.sessions.contains_key(u)
                ==> exists|i: int|
                0 <= i < fanout(v.members(room_id), v.sessions).len() && (#[trigger] fanout(
                    v.members(room_id),
                    v.sessions,
                )[i]).user_id == u,
        forall|i: int, j: int|
            0 <= i < j < fanout(v.members(room_id), v.sessions).len() ==> (#[trigger] fanout(
                v.members(room_id),
                v.sessions,
            )[i]).user_id != (#[trigger] fanout(v.members(room_id), v.sessions)[j]).user_id,
{
    lemma_fanout_sound(v.members(room_id), v.sessions);
    lemma_fanout_once(v.members(room_id), v.sessions);
    assert forall|u: u128|
        #[trigger] v.member_set(room_id).contains(u) && v.sessions.contains_key(u) implies exists|
        i: int,
    |
        0 <= i < fanout(v.members(room_id), v.sessions).len() && (#[trigger] fanout(
            v.members(room_id),
            v.sessions,
        )[i]).user_id == u by {
        lemma_fanout_complete(v.members(room_id), v.sessions, u);
    }
}

/// Law: no retroactive delivery. A fan-out computed on state `v` reaches no
/// user who holds no sink in `v`; in particular, a user connecting only
/// after a broadcast completed receives nothing from it, since the
/// deliveries are a function of the state the broadcast read.
pub proof fn lemma_no_retroactive_delivery(v: ServerView, room_id: u128, u: u128)
    requires
        !v.sessions.contains_key(u),
    ensures
        forall|i: int|
            0 <= i < fanout(v.members(room_id), v.sessions).len() ==> (#[trigger] fanout(
                v.members(room_id),
                v.sessions,
            )[i]).user_id != u,
{
    lemma_fanout_sound(v.members(room_id), v.sessions);
}

/// Law: no delivery to departed members. Once Disconnect(u) has been
/// applied, a fan-out computed on the resulting state — of any room —
/// delivers nothing to `u`.
pub proof fn lemma_no_delivery_after_disconnect(v: ServerView, u: u128, left_room: u128, room_id: u128)
    ensures
        forall|i: int|
            0 <= i < fanout(
                disconnect_step(v, u, left_room).members(room_id),
                disconnect_step(v, u, left_room).sessions,
            ).len() ==> (#[trigger] fanout(
                disconnect_step(v, u, left_room).members(room_id),
                disconnect_step(v, u, left_room).sessions,
            )[i]).user_id != u,
{
    let after = disconnect_step(v, u, left_room);
    assert(!after.sessions.contains_key(u));
    lemma_no_retroactive_delivery(after, room_id, u);
}

/// Law: Disconnect for a user with no sink and no membership in the named
/// room leaves the state exactly as it was.
pub proof fn lemma_disconnect_unregistered_noop(v: ServerView, u: u128, room_id: u128)
    requires
        !v.sessions.contains_key(u),
        !v.member_set(room_id).contains(u),
    ensures
        disconnect_step(v, u, room_id) == v,
{
    assert(v.sessions.remove(u) =~= v.sessions);
    if v.rooms.contains_key(room_id) {
        v.rooms[room_id].index_of_first_ensures(u);
        assert(v.rooms[room_id].remove_value(u) == v.rooms[room_id]);
        assert(v.rooms.insert(room_id, v.rooms[room_id]) =~= v.rooms);
    }
    assert(disconnect_step(v, u, room_id) =~= v);
}

/// One lifecycle event, for reasoning about whole runs of the coordinator.
pub enum Op {
    Connect { user_id: u128, room_id: u128, addr: u64 },
    Disconnect { user_id: u128, room_id: u128 },
}

/// The state a run of lifecycle events leaves behind, applied in order.
pub open spec fn apply_op(v: ServerView, op: Op) -> ServerView {
    match op {
        Op::Connect { user_id, room_id, addr } => connect_step(v, user_id, room_id, addr),
        Op::Disconnect { user_id, room_id } => disconnect_step(v, user_id, room_id),
    }
}

pub open spec fn apply_ops(v: ServerView, ops: Seq<Op>) -> ServerView
    decreases ops.len(),
{
    if ops.len() == 0 {
        v
    } else {
        apply_op(apply_ops(v, ops.drop_last()), ops.last())
    }
}

pub open spec fn connects(op: Op, u: u128) -> bool {
    op matches Op::Connect { user_id, .. } && user_id == u
}

pub open spec fn disconnects(op: Op, u: u128) -> bool {
    op matches Op::Disconnect { user_id, .. } && user_id == u
}

/// No operation after position `i` disconnects `u`.
pub open spec fn no_later_disconnect(ops: Seq<Op>, i: int, u: u128) -> bool {
    forall|j: int| i < j < ops.len() ==> !disconnects(#[trigger] ops[j], u)
}

/// `u` has a Connect in `ops` that no later Disconnect matches.
pub open spec fn has_unmatched_connect(ops: Seq<Op>, u: u128) -> bool {
    exists|i: int| 0 <= i < ops.len() && #[trigger] connects(ops[i], u) && no_later_disconnect(ops, i, u)
}

/// Appending one event: `u` is live afterwards iff the event connects `u`,
/// or `u` was live already and the event does not disconnect `u`.
proof fn lemma_unmatched_connect_push(prefix: Seq<Op>, op: Op, u: u128)
    ensures
        has_unmatched_connect(prefix.push(op), u) <==> (connects(op, u) || (
        has_unmatched_connect(prefix, u) && !disconnects(op, u))),
{
    let ops = prefix.push(op);
    if has_unmatched_connect(ops, u) && !connects(op, u) {
        let i = choose|i: int|
            0 <= i < ops.len() && #[trigger] connects(ops[i], u) && no_later_disconnect(ops, i, u);
        assert(i < ops.len() - 1);
        assert(connects(prefix[i], u));
        assert(no_later_disconnect(prefix, i, u)) by {
            assert forall|j: int| i < j < prefix.len() implies !disconnects(
                #[trigger] prefix[j],
                u,
            ) by {
                assert(ops[j] == prefix[j]);
            }
        }
        assert(has_unmatched_connect(prefix, u));
        assert(!disconnects(ops[ops.len() - 1], u));
    }
    if connects(op, u) {
        let i = ops.len() - 1;
        assert(connects(ops[i], u));
        assert(no_later_disconnect(ops, i, u));
        assert(has_unmatched_connect(ops, u));
    } else if has_unmatched_connect(prefix, u) && !disconnects(op, u) {
        let i = choose|i: int|
            0 <= i < prefix.len() && #[trigger] connects(prefix[i], u) && no_later_disconnect(
                prefix,
                i,
                u,
            );
        assert(connects(ops[i], u));
        assert(no_later_disconnect(ops, i, u)) by {
            assert forall|j: int| i < j < ops.len() implies !disconnects(#[trigger] ops[j], u) by {
                if j < ops.len() - 1 {
                    assert(ops[j] == prefix[j]);
                } else {
                    assert(ops[j] == op);
                }
            }
        }
        assert(has_unmatched_connect(ops, u));
    }
}

/// Law: after any run of Connect/Disconnect events from the initial state,
/// the registry's key set is exactly the set of users with a Connect not
/// matched by a later Disconnect. `new`, `connect` and `disconnect` each
/// ensure exactly one of these steps, so this holds of every live
/// [`ChatServer`].
pub proof fn lemma_registry_tracks_lifecycle(ops: Seq<Op>)
    ensures
        forall|u: u128|
            apply_ops(ServerView::init(), ops).sessions.contains_key(u)
                <==> #[trigger] has_unmatched_connect(ops, u),
    decreases ops.len(),
{
    if ops.len() == 0 {
        assert forall|u: u128| !has_unmatched_connect(ops, u) by {}
    } else {
        let prefix = ops.drop_last();
        let op = ops.last();
        lemma_registry_tracks_lifecycle(prefix);
        assert(ops =~= prefix.push(op));
        let vp = apply_ops(ServerView::init(), prefix);
        assert forall|u: u128|
            apply_ops(ServerView::init(), ops).sessions.contains_key(u)
                <==> #[trigger] has_unmatched_connect(ops, u) by {
            lemma_unmatched_connect_push(prefix, op, u);
        }
    }
}

/// Removing a value keeps a duplicate-free sequence duplicate-free.
proof fn lemma_remove_value_no_duplicates(s: Seq<u128>, val: u128)
    requires
        s.no_duplicates(),
    ensures
        s.remove_value(val).no_duplicates(),
{
    s.index_of_first_ensures(val);
    match s.index_of_first(val) {
        Some(i) => {
            assert forall|p: int, q: int|
                0 <= p < s.remove(i).len() && 0 <= q < s.remove(i).len() && p != q implies s.remove(
                i,
            )[p] != s.remove(i)[q] by {
                assert(s.remove(i)[p] == if p < i {
                    s[p]
                } else {
                    s[p + 1]
                });
                assert(s.remove(i)[q] == if q < i {
                    s[q]
                } else {
                    s[q + 1]
                });
            }
        },
        None => {},
    }
}

} // verus!
