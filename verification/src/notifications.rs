//! The change-notification fanout.
//!
//! A single hub owns the set of subscribed live sessions. Publishing an event
//! hands one copy to every subscriber whose socket is still connected and
//! prunes every subscriber whose socket is not — lazy garbage collection, no
//! separate unsubscribe step. Each live session keeps a liveness timer fed by
//! protocol pings; a session that has seen no activity within the timeout is
//! terminated.

use vstd::prelude::*;
use crate::store::DbFileMetadata;
use crate::{WEBSOCKET_CLIENT_TIMEOUT};

verus! {

// ---------------------------------------------------------------------------
// Change events
// ---------------------------------------------------------------------------

/// Mathematical model of a change record.
#[verifier::ext_equal]
pub struct NotificationModel {
    pub event: Seq<char>,
    pub id: Seq<char>,
    pub version: int,
    pub file_type: Seq<char>,
    pub name: Seq<char>,
    pub bookmarked: bool,
    pub parent: Seq<char>,
    pub source_device_desc: Seq<char>,
    pub source_device_id: Seq<char>,
}

/// A structured change record, pushed to every live session after a
/// successful store mutation.
pub struct Notification {
    pub event: String,
    pub id: String,
    pub version: i64,
    pub file_type: String,
    pub name: String,
    pub bookmarked: bool,
    pub parent: String,
    pub source_device_desc: String,
    pub source_device_id: String,
}

impl View for Notification {
    type V = NotificationModel;

    open spec fn view(&self) -> NotificationModel {
        NotificationModel {
            event: self.event@,
            id: self.id@,
            version: self.version as int,
            file_type: self.file_type@,
            name: self.name@,
            bookmarked: self.bookmarked,
            parent: self.parent@,
            source_device_desc: self.source_device_desc@,
            source_device_id: self.source_device_id@,
        }
    }
}

/// The change record a metadata row turns into.
pub open spec fn notification_of(
    event: Seq<char>,
    m: crate::store::MetadataModel,
    source_device_desc: Seq<char>,
    source_device_id: Seq<char>,
) -> NotificationModel {
    NotificationModel {
        event,
        id: m.id,
        version: m.version,
        file_type: m.file_type,
        name: m.name,
        bookmarked: m.bookmarked,
        parent: m.parent,
        source_device_desc,
        source_device_id,
    }
}

impl Notification {
    /// The change record announcing the given metadata row, carrying the
    /// originating device's identity for attribution.
    pub fn from_metadata(
        event: &str,
        metadata: &DbFileMetadata,
        source_device_desc: &str,
        source_device_id: &str,
    ) -> (r: Notification)
        ensures
            r@ == notification_of(event@, metadata@, source_device_desc@, source_device_id@),
    {
        let r = Notification {
            event: event.to_owned(),
            id: metadata.id.clone(),
            version: metadata.version,
            file_type: metadata.file_type.clone(),
            name: metadata.name.clone(),
            bookmarked: metadata.bookmarked,
            parent: metadata.parent.clone(),
            source_device_desc: source_device_desc.to_owned(),
            source_device_id: source_device_id.to_owned(),
        };
        proof {
            assert(r@ =~= notification_of(event@, metadata@, source_device_desc@, source_device_id@));
        }
        r
    }
}

// ---------------------------------------------------------------------------
// The hub
// ---------------------------------------------------------------------------

/// One subscribed live session, as the hub sees it: an opaque handle and
/// whether its socket was still connected when the runtime last checked.
#[derive(Clone, Copy, PartialEq, Eq, Structural)]
pub struct Session {
    pub session_id: u64,
    pub connected: bool,
}

/// One copy of a published message, addressed to one session.
pub struct Delivery {
    pub session_id: u64,
    pub message: String,
}

/// The sessions that survive a delivery round: exactly the connected ones,
/// in subscription order.
pub open spec fn live_sessions(subs: Seq<Session>) -> Seq<Session>
    decreases subs.len(),
{
    if subs.len() == 0 {
        Seq::empty()
    } else if subs[0].connected {
        seq![subs[0]] + live_sessions(subs.drop_first())
    } else {
        live_sessions(subs.drop_first())
    }
}

/// How many sessions of a sequence carry the given handle.
pub open spec fn count_id(subs: Seq<Session>, session_id: u64) -> int
    decreases subs.len(),
{
    if subs.len() == 0 {
        0
    } else if subs[0].session_id == session_id {
        1 + count_id(subs.drop_first(), session_id)
    } else {
        count_id(subs.drop_first(), session_id)
    }
}

/// Law: one publish delivers exactly one copy to every connected subscriber
/// and none to a disconnected one — when handles are distinct, a connected
/// session's handle appears exactly once among the survivors (each of which
/// receives one copy), and a disconnected session's handle not at all.
pub proof fn lemma_publish_exactly_once(subs: Seq<Session>, i: int)
    requires
        forall|a: int, b: int| 0 <= a < b < subs.len()
            ==> (#[trigger] subs[a]).session_id != (#[trigger] subs[b]).session_id,
        0 <= i < subs.len(),
    ensures
        count_id(live_sessions(subs), subs[i].session_id) == if subs[i].connected { 1int } else { 0int },
    decreases subs.len(),
{
    let rest = subs.drop_first();
    if i == 0 {
        lemma_count_id_absent(rest, subs[0].session_id);
        assert forall|a: int| 0 <= a < rest.len() implies (#[trigger] rest[a]).session_id != subs[0].session_id by {
            assert(rest[a] == subs[a + 1]);
        }
        lemma_live_count_absent(rest, subs[0].session_id);
        if subs[0].connected {
            assert(count_id(seq![subs[0]] + live_sessions(rest), subs[0].session_id)
                == 1 + count_id(live_sessions(rest), subs[0].session_id)) by {
            assert((seq![subs[0]] + live_sessions(rest)).drop_first() =~= live_sessions(rest));
            }
        }
    } else {
        assert forall|a: int, b: int| 0 <= a < b < rest.len()
            implies (#[trigger] rest[a]).session_id != (#[trigger] rest[b]).session_id by {
            assert(rest[a] == subs[a + 1]);
            assert(rest[b] == subs[b + 1]);
        }
        assert(rest[i - 1] == subs[i]);
        lemma_publish_exactly_once(rest, i - 1);
        assert(subs[0].session_id != subs[i].session_id);
        if subs[0].connected {
            assert(count_id(seq![subs[0]] + live_sessions(rest), subs[i].session_id)
                == count_id(live_sessions(rest), subs[i].session_id)) by {
                assert((seq![subs[0]] + live_sessions(rest)).drop_first() =~= live_sessions(rest));
            }
        }
    }
}

/// A handle that no session of a sequence carries is not counted in it.
proof fn lemma_count_id_absent(subs: Seq<Session>, session_id: u64)
    requires
        forall|a: int| 0 <= a < subs.len() ==> (#[trigger] subs[a]).session_id != session_id,
    ensures
        count_id(subs, session_id) == 0,
    decreases subs.len(),
{
    if subs.len() > 0 {
        let rest = subs.drop_first();
        assert forall|a: int| 0 <= a < rest.len() implies (#[trigger] rest[a]).session_id != session_id by {
            assert(rest[a] == subs[a + 1]);
        }
        lemma_count_id_absent(rest, session_id);
    }
}

/// A handle that no session of a sequence carries is not counted among the
/// survivors either.
proof fn lemma_live_count_absent(subs: Seq<Session>, session_id: u64)
    requires
        forall|a: int| 0 <= a < subs.len() ==> (#[trigger] subs[a]).session_id != session_id,
    ensures
        count_id(live_sessions(subs), session_id) == 0,
    decreases subs.len(),
{
    if subs.len() > 0 {
        let rest = subs.drop_first();
        assert forall|a: int| 0 <= a < rest.len() implies (#[trigger] rest[a]).session_id != session_id by {
            assert(rest[a] == subs[a + 1]);
        }
        lemma_live_count_absent(rest, session_id);
        if subs[0].connected {
            assert(count_id(seq![subs[0]] + live_sessions(rest), session_id)
                == count_id(live_sessions(rest), session_id)) by {
                assert((seq![subs[0]] + live_sessions(rest)).drop_first() =~= live_sessions(rest));
            }
        }
    }
}

/// The long-lived hub holding every currently subscribed live session.
pub struct NotificationServer {
    subscriptions: Vec<Session>,
}

impl View for NotificationServer {
    type V = Seq<Session>;

    closed spec fn view(&self) -> Seq<Session> {
        self.subscriptions@
    }
}

impl NotificationServer {
    /// A hub with no subscribers.
    pub fn new() -> (r: NotificationServer)
        ensures
            r@ =~= Seq::<Session>::empty(),
    {
        NotificationServer { subscriptions: Vec::new() }
    }

    /// Register a live session. Plain addition: multiple sessions per device
    /// are allowed, and subscribing twice delivers twice.
    pub fn subscribe(&mut self, session: Session)
        ensures
            final(self)@ == old(self)@.push(session),
    {
        self.subscriptions.push(session);
    }

    /// Record what the runtime observed of one session's socket: every
    /// subscription under this handle is marked, and no other is touched.
    pub fn set_connected(&mut self, session_id: u64, connected: bool)
        ensures
            final(self)@ == old(self)@.map_values(|s: Session| if s.session_id == session_id {
                (Session { session_id: s.session_id, connected })
            } else {
                s
            }),
    {
        let ghost orig = self@;
        let n = self.subscriptions.len();
        let mut k: usize = 0;
        while k < n
            invariant
                k <= n,
                n == self@.len(),
                forall|i: int| k <= i < n ==> #[trigger] self@[i] == orig[i],
                forall|i: int| 0 <= i < k ==> #[trigger] self@[i] == (if orig[i].session_id == session_id {
                    (Session { session_id: orig[i].session_id, connected })
                } else {
                    orig[i]
                }),
            decreases n - k,
        {
            if self.subscriptions[k].session_id == session_id {
                let slot = &mut self.subscriptions[k];
                slot.connected = connected;
            }
            k = k + 1;
        }
        proof {
            assert(final(self)@ =~= orig.map_values(|s: Session| if s.session_id == session_id {
                (Session { session_id: s.session_id, connected })
            } else {
                s
            }));
        }
    }

    /// Deliver one published message: every subscriber whose socket is still
    /// connected is handed exactly one copy, in subscription order, and every
    /// subscriber found disconnected is pruned from the hub. A dead
    /// subscriber never blocks delivery to the others.
    pub fn send_message(&mut self, message: &str) -> (r: Vec<Delivery>)
        ensures
            final(self)@ == live_sessions(old(self)@),
            r@.len() == live_sessions(old(self)@).len(),
            forall|i: int| 0 <= i < r@.len()
                ==> (#[trigger] r@[i]).session_id == live_sessions(old(self)@)[i].session_id
                    && r@[i].message@ == message@,
    {
        let ghost orig = self@;
        let mut rest: Vec<Session> = Vec::new();
        core::mem::swap(&mut self.subscriptions, &mut rest);
        let mut deliveries: Vec<Delivery> = Vec::new();
        proof {
            assert(self@ + live_sessions(rest@) =~= live_sessions(orig));
        }
        while rest.len() > 0
            invariant
                self@ + live_sessions(rest@) =~= live_sessions(orig),
                deliveries@.len() == self@.len(),
                forall|i: int| 0 <= i < deliveries@.len()
                    ==> (#[trigger] deliveries@[i]).session_id == self@[i].session_id
                        && deliveries@[i].message@ == message@,
            decreases rest.len(),
        {
            let ghost rem_pre = rest@;
            let s = rest.remove(0);
            proof {
                assert(rest@ =~= rem_pre.drop_first());
            }
            if s.connected {
                let ghost self_pre = self@;
                self.subscriptions.push(s);
                deliveries.push(Delivery { session_id: s.session_id, message: message.to_owned() });
                proof {
                    assert(self_pre.push(s) + live_sessions(rem_pre.drop_first())
                        =~= self_pre + (seq![s] + live_sessions(rem_pre.drop_first())));
                }
            }
        }
        proof {
            assert(live_sessions(rest@) =~= Seq::<Session>::empty());
            assert(final(self)@ =~= live_sessions(orig));
        }
        deliveries
    }
}

// ---------------------------------------------------------------------------
// Live-session protocol
// ---------------------------------------------------------------------------

/// What a live session can receive on its socket.
pub enum WsMessage {
    Ping(Vec<u8>),
    Pong,
    Text,
    Binary,
    Close,
    Continuation,
    Nop,
    ProtocolError,
}

/// What the session does in response.
pub enum WsAction {
    ReplyPong(Vec<u8>),
    Nothing,
    CloseAndStop,
    Stop,
}

/// The per-connection liveness state of one live session.
pub struct WsNotificationSession {
    pub last_heartbeat: i64,
}

impl WsNotificationSession {
    /// React to one socket message: protocol pings and pongs feed the
    /// liveness timer (a ping is answered), data frames are ignored, a close
    /// is acknowledged and ends the session, and a continuation frame or a
    /// protocol error ends it at once.
    pub fn handle(&mut self, msg: WsMessage, now: i64) -> (r: WsAction)
        ensures
            match msg {
                WsMessage::Ping(p) => (r matches WsAction::ReplyPong(q) && q@ == p@)
                    && final(self).last_heartbeat == now,
                WsMessage::Pong => r is Nothing && final(self).last_heartbeat == now,
                WsMessage::Text => r is Nothing && *final(self) == *old(self),
                WsMessage::Binary => r is Nothing && *final(self) == *old(self),
                WsMessage::Close => r is CloseAndStop && *final(self) == *old(self),
                WsMessage::Continuation => r is Stop && *final(self) == *old(self),
                WsMessage::Nop => r is Nothing && *final(self) == *old(self),
                WsMessage::ProtocolError => r is Stop && *final(self) == *old(self),
            },
    {
        match msg {
            WsMessage::Ping(p) => {
                self.last_heartbeat = now;
                WsAction::ReplyPong(p)
            },
            WsMessage::Pong => {
                self.last_heartbeat = now;
                WsAction::Nothing
            },
            WsMessage::Text => WsAction::Nothing,
            WsMessage::Binary => WsAction::Nothing,
            WsMessage::Close => WsAction::CloseAndStop,
            WsMessage::Continuation => WsAction::Stop,
            WsMessage::Nop => WsAction::Nothing,
            WsMessage::ProtocolError => WsAction::Stop,
        }
    }

    /// The periodic liveness check: whether the session has seen no activity
    /// within the client timeout and must be terminated; otherwise the
    /// caller sends a protocol ping.
    pub fn heartbeat(&self, now: i64) -> (r: bool)
        requires
            0 <= self.last_heartbeat <= now,
        ensures
            r == (now - self.last_heartbeat > WEBSOCKET_CLIENT_TIMEOUT),
    {
        now - self.last_heartbeat > WEBSOCKET_CLIENT_TIMEOUT
    }
}

} // verus!
