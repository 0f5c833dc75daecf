//! The real-time message relay: the process-wide connection directory, the
//! per-connection session, and the hook that pushes a freshly persisted
//! message to its recipient's live connection.

use vstd::prelude::*;
use std::collections::HashMap;
use crate::model::message::{Connect, Disconnect, Message, SendMessageModel, StreamMessage};
use crate::model::ResultModel;
use crate::schema;
use crate::wire;

verus! {

broadcast use vstd::std_specs::hash::group_hash_axioms;

/// The process-wide directory of live connections: each user id maps to at
/// most one connection handle.  All operations are meant to be serialized
/// by the caller (one mailbox, or one lock, around the single instance),
/// so each takes the directory exclusively and none blocks.
#[derive(Debug, Clone)]
pub struct MessageStreamServer {
    sessions: HashMap<i32, u64>,
}

impl MessageStreamServer {
    /// The directory a user id is mapped under.
    pub closed spec fn registered(&self) -> Map<i32, u64> {
        self.sessions@
    }

    /// An empty directory: no user has a live connection.
    pub fn new() -> (server: Self)
        ensures
            server.registered() == Map::<i32, u64>::empty(),
    {
        Self { sessions: HashMap::<i32, u64>::new() }
    }

    /// Install `msg.addr` as the current connection of `msg.user_id`,
    /// replacing any prior entry: the last registration wins, and the
    /// displaced handle is neither notified nor closed here.
    pub fn register(&mut self, msg: Connect)
        ensures
            final(self).registered() == old(self).registered().insert(msg.user_id, msg.addr),
    {
        self.sessions.insert(msg.user_id, msg.addr);
    }

    /// Drop whatever entry `msg.user_id` currently has, if any; idempotent,
    /// never an error.  No check is made that the departing session still
    /// owns the slot.
    pub fn unregister(&mut self, msg: Disconnect)
        ensures
            final(self).registered() == old(self).registered().remove(msg.user_id),
    {
        self.sessions.remove(&msg.user_id);
    }

    /// Best-effort live delivery: the handle the message must be forwarded
    /// to, or nothing when the recipient has no live connection.  An
    /// offline recipient is not an error; the message is already durable.
    pub fn dispatch(&self, user_id: i32, message: &StreamMessage) -> (target: Option<u64>)
        ensures
            target == dispatch_target(self.registered(), user_id),
    {
        match self.sessions.get(&user_id) {
            Some(addr) => Some(*addr),
            None => None,
        }
    }
}

/// Where a dispatch to `user_id` lands when the directory reads `m`:
/// the registered handle, or nowhere.
pub open spec fn dispatch_target(m: Map<i32, u64>, user_id: i32) -> Option<u64> {
    if m.contains_key(user_id) {
        Some(m[user_id])
    } else {
        None
    }
}

/// Last registration wins: once `b` has been registered for `u` after `a`,
/// a dispatch to `u` is forwarded to `b`, and not to `a` unless the two
/// handles are the same.
pub proof fn lemma_register_last_wins(m: Map<i32, u64>, u: i32, a: u64, b: u64)
    ensures
        dispatch_target(m.insert(u, a).insert(u, b), u) == Some(b),
        a != b ==> dispatch_target(m.insert(u, a).insert(u, b), u) != Some(a),
{
}

/// After a user is unregistered, a dispatch to it lands nowhere, whatever
/// the directory held before.
pub proof fn lemma_dispatch_after_unregister(m: Map<i32, u64>, u: i32)
    ensures
        dispatch_target(m.remove(u), u) is None,
{
}

/// Dispatches to one recipient whose registration does not change land on
/// the same handle each time, and the frames they push extend the
/// transport in call order: after `f1` then `f2`, the transport is what it
/// was, then `f1`, then `f2`, with nothing dropped or interleaved.
pub proof fn lemma_single_recipient_order(
    m: Map<i32, u64>,
    u: i32,
    h: u64,
    t0: Seq<Seq<char>>,
    f1: Seq<char>,
    f2: Seq<char>,
)
    requires
        dispatch_target(m, u) == Some(h),
    ensures
        dispatch_target(m, u) == Some(h),
        t0.push(f1).push(f2) == t0 + seq![f1, f2],
        t0.push(f1).push(f2).subrange(0, t0.len() as int) == t0,
        t0.push(f1).push(f2)[t0.len() as int] == f1,
        t0.push(f1).push(f2)[t0.len() as int + 1] == f2,
{
    assert(t0.push(f1).push(f2) =~= t0 + seq![f1, f2]);
    assert(t0.push(f1).push(f2).subrange(0, t0.len() as int) =~= t0);
}

/// Where in its lifecycle a session stands.
#[derive(Debug, Clone, Copy, PartialEq, Eq, Structural)]
pub enum SessionState {
    Created,
    Active,
    Closing,
    Closed,
}

/// An inbound transport frame, as far as a session cares: a keepalive ping
/// with its payload, or anything else.
#[derive(Debug, Clone, PartialEq)]
pub enum InboundFrame {
    Ping(Vec<u8>),
    Other,
}

/// One live duplex connection: it registers itself when it starts, writes
/// each dispatched message onto its transport as a wire frame, answers
/// pings, and deregisters itself when it terminates.  `written` stands for
/// the transport: everything pushed to the client, oldest first.
#[derive(Debug)]
pub struct MessageStreamSession {
    pub user_id: i32,
    pub handle: u64,
    pub state: SessionState,
    pub written: Vec<String>,
}

impl MessageStreamSession {
    /// What has been pushed onto this session's transport, oldest first.
    pub closed spec fn transcript(&self) -> Seq<Seq<char>> {
        Seq::new(self.written@.len(), |k: int| self.written@[k]@)
    }

    /// A session for one authenticated user, not yet started: nothing
    /// written, transport handle `handle`.
    pub fn new(user_id: i32, handle: u64) -> (s: Self)
        ensures
            s.user_id == user_id,
            s.handle == handle,
            s.state == SessionState::Created,
            s.transcript() == Seq::<Seq<char>>::empty(),
    {
        let s = Self { user_id, handle, state: SessionState::Created, written: Vec::new() };
        proof {
            assert(s.transcript() =~= Seq::<Seq<char>>::empty());
        }
        s
    }

    /// The transport is up: the session becomes active and asks the
    /// directory to install its handle.  Registration is fire-and-forget;
    /// there is no waiting state.
    pub fn started(&mut self) -> (c: Connect)
        requires
            old(self).state == SessionState::Created,
        ensures
            final(self).state == SessionState::Active,
            final(self).user_id == old(self).user_id,
            final(self).handle == old(self).handle,
            final(self).transcript() == old(self).transcript(),
            c == (Connect { user_id: old(self).user_id, addr: old(self).handle }),
    {
        self.state = SessionState::Active;
        Connect { user_id: self.user_id, addr: self.handle }
    }

    /// Whether handing the registration request to the directory worked.
    /// If the directory was unreachable the session must not run
    /// unregistered, so it starts closing.
    pub fn on_register_send_result(&mut self, ok: bool)
        requires
            old(self).state == SessionState::Active,
        ensures
            final(self).state == if ok {
                SessionState::Active
            } else {
                SessionState::Closing
            },
            final(self).user_id == old(self).user_id,
            final(self).handle == old(self).handle,
            final(self).transcript() == old(self).transcript(),
    {
        if !ok {
            self.state = SessionState::Closing;
        }
    }

    /// A dispatched message arrives: serialize it and push the frame onto
    /// the transport.  Delivery is fire-and-forget; no acknowledgement is
    /// awaited.
    pub fn handle(&mut self, msg: &StreamMessage)
        requires
            old(self).state == SessionState::Active,
        ensures
            final(self).state == old(self).state,
            final(self).user_id == old(self).user_id,
            final(self).handle == old(self).handle,
            final(self).transcript() == old(self).transcript().push(
                wire::frame_chars(wire::frame_of(*msg)),
            ),
    {
        let frame = wire::encode_frame(msg);
        self.written.push(frame);
        proof {
            assert(self.transcript() =~= old(self).transcript().push(
                wire::frame_chars(wire::frame_of(*msg)),
            ));
        }
    }

    /// An inbound transport frame: a keepalive ping is answered with a
    /// pong carrying the same payload; everything else is dropped, since
    /// this connection is receive-only for the application.
    pub fn on_frame(&mut self, frame: InboundFrame) -> (pong: Option<Vec<u8>>)
        ensures
            *final(self) == *old(self),
            match frame {
                InboundFrame::Ping(p) => pong matches Some(q) && q@ == p@,
                InboundFrame::Other => pong is None,
            },
    {
        match frame {
            InboundFrame::Ping(p) => Some(p),
            InboundFrame::Other => None,
        }
    }

    /// The session is going away, for whatever reason: it asks the
    /// directory to drop its user's entry, once, best-effort, and is then
    /// closed.  The transport itself is released by the owner.
    pub fn stopping(&mut self) -> (d: Disconnect)
        requires
            old(self).state != SessionState::Closed,
        ensures
            final(self).state == SessionState::Closed,
            final(self).user_id == old(self).user_id,
            final(self).handle == old(self).handle,
            final(self).transcript() == old(self).transcript(),
            d == (Disconnect { user_id: old(self).user_id }),
    {
        self.state = SessionState::Closed;
        Disconnect { user_id: self.user_id }
    }
}

/// Whether `sm` is the delivery copy of the stored row `m`: same message,
/// with the sender in `user_id` and the recipient and read state left out.
pub open spec fn is_delivery_copy(sm: StreamMessage, m: schema::Message) -> bool {
    &&& sm.id == m.id
    &&& sm.user_id == m.from_user
    &&& sm.quote_id == m.quote_id
    &&& sm.send_time == m.send_time
    &&& sm.message_type == m.message_type
    &&& sm.message@ == m.message@
}

/// The delivery copy of an already stored message row.
pub fn to_stream_message(m: &schema::Message) -> (r: StreamMessage)
    ensures
        is_delivery_copy(r, *m),
{
    StreamMessage {
        id: m.id,
        user_id: m.from_user,
        quote_id: m.quote_id,
        send_time: m.send_time,
        message_type: m.message_type,
        message: m.message.clone(),
    }
}

/// The hook the send path calls once the store has accepted the row, and
/// only then: build the delivery copy and ask the directory where it goes.
/// The caller forwards the copy to the returned handle; an offline
/// recipient means nothing is forwarded and nothing failed.
pub fn on_message_persisted(server: &MessageStreamServer, stored: &schema::Message) -> (r: Option<
    (u64, StreamMessage),
>)
    ensures
        match dispatch_target(server.registered(), stored.to_user) {
            Some(h) => r matches Some(p) && p.0 == h && is_delivery_copy(p.1, *stored),
            None => r is None,
        },
{
    let sm = to_stream_message(stored);
    match server.dispatch(stored.to_user, &sm) {
        Some(h) => Some((h, sm)),
        None => None,
    }
}

/// The conversation a message row belongs to, seen from `self_user_id`:
/// the other end of it.
pub open spec fn partner(self_user_id: int, m: Message) -> int {
    if m.from_user == self_user_id {
        m.to_user as int
    } else {
        m.from_user as int
    }
}

/// The partners already represented: every value some entry of `seen`
/// holds.
pub open spec fn seen_set(seen: Seq<i32>) -> Set<int> {
    Set::new(|p: int| exists|x: i32| seen.contains(x) && x as int == p)
}

/// One row per conversation: of each partner not yet in `seen`, the first
/// row, in the order the rows come (newest first, so the newest row of
/// each conversation).
pub open spec fn latest_per_partner(self_user_id: int, rows: Seq<Message>, seen: Set<int>) -> Seq<
    Message,
>
    decreases rows.len(),
{
    if rows.len() == 0 {
        Seq::empty()
    } else {
        let p = partner(self_user_id, rows[0]);
        if seen.contains(p) {
            latest_per_partner(self_user_id, rows.drop_first(), seen)
        } else {
            seq![rows[0]] + latest_per_partner(self_user_id, rows.drop_first(), seen.insert(p))
        }
    }
}

/// Whether `v` holds `x`.
fn contains_i32(v: &Vec<i32>, x: i32) -> (b: bool)
    ensures
        b == v@.contains(x),
{
    let mut k: usize = 0;
    while k < v.len()
        invariant
            k <= v@.len(),
            forall|t: int| 0 <= t < k ==> v@[t] != x,
        decreases v@.len() - k,
    {
        if v[k] == x {
            return true;
        }
        k = k + 1;
    }
    false
}

/// The conversation overview: given every message row touching the caller,
/// newest first, keep the newest row of each conversation, in the order
/// the conversations last spoke.
pub fn latest_conversations(self_user_id: i32, rows: Vec<Message>) -> (r: Vec<Message>)
    ensures
        r@ == latest_per_partner(self_user_id as int, rows@, Set::empty()),
{
    broadcast use vstd::seq_lib::group_seq_properties;

    let mut rows = rows;
    let ghost rows0 = rows@;
    let mut seen: Vec<i32> = Vec::new();
    let mut out: Vec<Message> = Vec::new();
    proof {
        assert(seen_set(seen@) =~= Set::<int>::empty());
        assert(out@ + latest_per_partner(self_user_id as int, rows@, seen_set(seen@))
            =~= latest_per_partner(self_user_id as int, rows0, Set::empty()));
    }
    while rows.len() > 0
        invariant
            latest_per_partner(self_user_id as int, rows0, Set::empty()) == out@
                + latest_per_partner(self_user_id as int, rows@, seen_set(seen@)),
        decreases rows@.len(),
    {
        let ghost rows_before = rows@;
        let ghost seen_before = seen@;
        let m = rows.remove(0);
        proof {
            assert(rows@ =~= rows_before.drop_first());
        }
        let p = if m.from_user == self_user_id {
            m.to_user
        } else {
            m.from_user
        };
        let already = contains_i32(&seen, p);
        proof {
            assert(already == seen_set(seen@).contains(p as int)) by {
                if seen@.contains(p) {
                    assert(seen_set(seen@).contains(p as int));
                }
                if seen_set(seen@).contains(p as int) {
                    let x = choose|x: i32| seen@.contains(x) && x as int == p as int;
                    assert(x == p);
                }
            }
        }
        if !already {
            let ghost out_before = out@;
            seen.push(p);
            out.push(m);
            proof {
                assert(seen@ == seen_before.push(p));
                assert(seen_set(seen@) =~= seen_set(seen_before).insert(p as int)) by {
                    assert forall|q: int| seen_set(seen@).contains(q) implies seen_set(
                        seen_before,
                    ).insert(p as int).contains(q) by {
                        let x = choose|x: i32| seen@.contains(x) && x as int == q;
                        let k = choose|k: int| 0 <= k < seen@.len() && seen@[k] == x;
                        if k < seen_before.len() {
                            assert(seen_before[k] == x);
                            assert(seen_before.contains(x));
                        } else {
                            assert(x == p);
                        }
                    }
                    assert forall|q: int| seen_set(seen_before).insert(p as int).contains(q)
                        implies seen_set(seen@).contains(q) by {
                        if q == p as int {
                            assert(seen@[seen_before.len() as int] == p);
                            assert(seen@.contains(p));
                        } else {
                            let x = choose|x: i32| seen_before.contains(x) && x as int == q;
                            let k = choose|k: int| 0 <= k < seen_before.len() && seen_before[k]
                                == x;
                            assert(seen@[k] == x);
                            assert(seen@.contains(x));
                        }
                    }
                }
                assert(out@ =~= out_before + seq![rows_before[0]]);
                assert(out@ + latest_per_partner(
                    self_user_id as int,
                    rows@,
                    seen_set(seen@),
                ) =~= out_before + (seq![rows_before[0]] + latest_per_partner(
                    self_user_id as int,
                    rows_before.drop_first(),
                    seen_set(seen_before).insert(p as int),
                )));
            }
        }
    }
    proof {
        assert(out@ + latest_per_partner(self_user_id as int, rows@, seen_set(seen@)) =~= out@);
    }
    out
}

/// The one check the send endpoint makes before writing the row: a user
/// cannot message itself.
pub fn validate_send(self_user_id: i32, model: &SendMessageModel) -> (r: Result<
    (),
    ResultModel<String>,
>)
    ensures
        match r {
            Ok(()) => self_user_id != model.to_user,
            Err(e) => {
                &&& self_user_id == model.to_user
                &&& e.success == false
                &&& e.code == 400
                &&& e.data is None
                &&& e.message matches Some(msg) && msg@ == "Cannot send message to yourself."@
            },
        },
{
    if self_user_id == model.to_user {
        Err(ResultModel {
            success: false,
            code: 400,
            data: None,
            message: Some("Cannot send message to yourself.".to_owned()),
        })
    } else {
        Ok(())
    }
}

} // verus!
