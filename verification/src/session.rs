//! One omikron control session: the mutual-challenge handshake state
//! machine, the per-session pending-request table, the idle watchdog, and
//! the dispatcher for authenticated requests.
//!
//! The session logic is a function from the session state and one inbound
//! frame to the next state and an instruction for the driver: a reply to
//! send, a repository lookup to perform (whose result is handed to the
//! matching `*_continue` function), or nothing.  The driver performs all
//! I/O; every decision is made here.

use vstd::prelude::*;

use crate::crypto;
use crate::msg::{DataKey, Msg, MsgType};
use crate::presence::PresenceIndex;
use crate::records::{IotaRecord, OmikronRecord, UserRecord};
use crate::register::RegisterAllocator;
use crate::registry::OmikronRegistry;
use crate::shortlink::ShortLinks;
use crate::status::ConnectionType;
use crate::strutil::string_eq;
use vstd::string::StringSliceAdditionalSpecFns;

verus! {

/// The handshake phase of a session.
#[derive(Clone, Copy, Debug, PartialEq, Eq, Structural)]
pub enum Phase {
    /// Connected, nothing received yet.
    Opened,
    /// A known omikron named itself; the encrypted challenge is out.
    Identified,
    /// The challenge came back right: the session is authenticated.
    Challenged,
    /// Terminal.
    Closed,
}

/// The ids of requests this server sent over the session and still awaits
/// answers to.  Response frames are matched by echoed id and consumed
/// exactly once.
pub struct PendingTable {
    pub ids: Vec<String>,
}

/// The request ids in the table, as character sequences.
pub open spec fn pending_view(s: Seq<String>) -> Seq<Seq<char>> {
    s.map_values(|x: String| x@)
}

impl PendingTable {
    pub open spec fn wf(self) -> bool {
        pending_view(self.ids@).no_duplicates()
    }

    pub open spec fn has(self, id: Seq<char>) -> bool {
        pending_view(self.ids@).contains(id)
    }

    pub fn new() -> (r: PendingTable)
        ensures
            r.wf(),
            forall|id: Seq<char>| !(#[trigger] r.has(id)),
    {
        PendingTable { ids: Vec::new() }
    }

    fn find(&self, id: &str) -> (r: Option<usize>)
        ensures
            match r {
                Some(i) => i < self.ids@.len() && self.ids@[i as int]@ == id@ && self.has(id@),
                None => !self.has(id@),
            },
    {
        let n = self.ids.len();
        let mut i: usize = 0;
        while i < n
            invariant
                n == self.ids@.len(),
                i <= n,
                forall|j: int| 0 <= j < i ==> (#[trigger] self.ids@[j])@ != id@,
            decreases n - i,
        {
            if string_eq(&self.ids[i], id) {
                proof {
                    assert(pending_view(self.ids@)[i as int] == id@);
                }
                return Some(i);
            }
            i = i + 1;
        }
        proof {
            if pending_view(self.ids@).contains(id@) {
                let w = choose|w: int|
                    0 <= w < pending_view(self.ids@).len() && pending_view(self.ids@)[w] == id@;
                assert(self.ids@[w]@ == id@);
            }
        }
        None
    }

    /// Registers an outbound request id; refused when the id is already
    /// pending, so ids stay unique per session.
    pub fn insert(&mut self, id: String) -> (r: bool)
        requires
            old(self).wf(),
        ensures
            final(self).wf(),
            r == !old(self).has(id@),
            final(self).has(id@),
            forall|o: Seq<char>|
                o != id@ ==> #[trigger] final(self).has(o) == old(self).has(o),
    {
        let ghost s0 = self.ids@;
        match self.find(id.as_str()) {
            Some(_) => false,
            None => {
                self.ids.push(id);
                proof {
                    let s1 = self.ids@;
                    let v0 = pending_view(s0);
                    let v1 = pending_view(s1);
                    let n = s0.len() as int;
                    assert(v1 =~= v0.push(s1[n]@));
                    assert forall|a: int, b: int|
                        0 <= a < v1.len() && 0 <= b < v1.len() && a != b implies v1[a] != v1[b] by {
                        if a < n && b < n {
                            assert(v0[a] != v0[b]);
                        } else if a == n {
                            assert(v1[b] == v0[b]);
                            if v0[b] == v1[n] {
                                assert(v0.contains(v1[n]));
                            }
                        } else if b == n {
                            assert(v1[a] == v0[a]);
                            if v0[a] == v1[n] {
                                assert(v0.contains(v1[n]));
                            }
                        }
                    }
                    assert(v1[n] == s1[n]@);
                    assert(final(self).has(s1[n]@));
                    assert forall|o: Seq<char>| o != s1[n]@ implies #[trigger] final(self).has(o)
                        == old(self).has(o) by {
                        if v1.contains(o) {
                            let w = choose|w: int| 0 <= w < v1.len() && v1[w] == o;
                            assert(v0[w] == o);
                        }
                        if v0.contains(o) {
                            let w = choose|w: int| 0 <= w < v0.len() && v0[w] == o;
                            assert(v1[w] == o);
                        }
                    }
                }
                true
            },
        }
    }

    /// Consumes the continuation for a response id.  Single-shot: after
    /// this returns true, the same id finds nothing until re-inserted.
    pub fn take(&mut self, id: &str) -> (r: bool)
        requires
            old(self).wf(),
        ensures
            final(self).wf(),
            r == old(self).has(id@),
            !final(self).has(id@),
            !old(self).has(id@) ==> final(self).ids@ == old(self).ids@,
            forall|o: Seq<char>|
                o != id@ ==> #[trigger] final(self).has(o) == old(self).has(o),
    {
        let ghost s0 = self.ids@;
        match self.find(id) {
            Some(i) => {
                self.ids.remove(i);
                proof {
                    let s1 = self.ids@;
                    let v0 = pending_view(s0);
                    let v1 = pending_view(s1);
                    assert(s1 == s0.remove(i as int));
                    assert(v1 =~= v0.remove(i as int));
                    assert(forall|j: int| 0 <= j < i ==> v1[j] == v0[j]);
                    assert(forall|j: int| i <= j < v1.len() ==> v1[j] == v0[j + 1]);
                    assert forall|a: int, b: int|
                        0 <= a < v1.len() && 0 <= b < v1.len() && a != b implies v1[a] != v1[b] by {
                        let a0: int = if a < i { a } else { a + 1 };
                        let b0: int = if b < i { b } else { b + 1 };
                        assert(v0[a0] != v0[b0]);
                    }
                    assert forall|o: Seq<char>| !(#[trigger] v1.contains(o)) || o != id@ by {
                        if v1.contains(o) && o == id@ {
                            let w = choose|w: int| 0 <= w < v1.len() && v1[w] == o;
                            let w0: int = if w < i { w } else { w + 1 };
                            assert(v0[w0] == id@);
                            assert(v0[i as int] == id@);
                            assert(w0 != i);
                            assert(false);
                        }
                    }
                    assert(!final(self).has(id@));
                    assert forall|o: Seq<char>| o != id@ implies #[trigger] final(self).has(o)
                        == old(self).has(o) by {
                        if v1.contains(o) {
                            let w = choose|w: int| 0 <= w < v1.len() && v1[w] == o;
                            let w0: int = if w < i { w } else { w + 1 };
                            assert(v0[w0] == o);
                        }
                        if v0.contains(o) {
                            let w0 = choose|w0: int| 0 <= w0 < v0.len() && v0[w0] == o;
                            assert(w0 != i);
                            let w: int = if w0 < i {
                                w0
                            } else {
                                w0 - 1
                            };
                            assert(v1[w] == o);
                        }
                    }
                }
                true
            },
            None => false,
        }
    }
}

/// The idle watchdog of a connection: one silent interval draws a ping,
/// a second consecutive one closes the connection.
pub struct IdleWatch {
    pub misses: u8,
}

/// What the transport should do when the idle interval expires.
#[derive(Clone, Copy, Debug, PartialEq, Eq, Structural)]
pub enum IdleAction {
    SendPing,
    Close,
}

impl IdleWatch {
    pub fn new() -> (r: IdleWatch)
        ensures
            r.misses == 0,
    {
        IdleWatch { misses: 0 }
    }

    /// An inbound frame arrived: the watchdog starts over.
    pub fn on_frame(&mut self)
        ensures
            final(self).misses == 0,
    {
        self.misses = 0;
    }

    /// The idle interval elapsed without an inbound frame.
    pub fn on_idle_expiry(&mut self) -> (r: IdleAction)
        ensures
            old(self).misses == 0 ==> r == IdleAction::SendPing && final(self).misses == 1,
            old(self).misses != 0 ==> r == IdleAction::Close && final(self).misses == old(self).misses,
    {
        if self.misses == 0 {
            self.misses = 1;
            IdleAction::SendPing
        } else {
            IdleAction::Close
        }
    }
}

/// The hub's own long-term key material.
pub struct ServerKeys {
    /// The X448 secret, 56 bytes.
    pub secret: Vec<u8>,
    /// The matching public key in base64, as sent in challenges.
    pub public_b64: String,
}

impl ServerKeys {
    pub open spec fn wf(self) -> bool {
        self.secret@.len() == 56
    }
}

/// One omikron control session.
pub struct Session {
    pub phase: Phase,
    /// Zero until the peer has identified itself.
    pub omikron_id: i64,
    /// The peer's long-term public key, once identified.
    pub peer_public_key: Option<Vec<u8>>,
    /// The plaintext challenge the peer must echo.
    pub challenge: Option<String>,
    /// The peer-reported round-trip time, -1 until a ping carried one.
    pub last_ping_rtt_ms: i64,
    pub pending: PendingTable,
}

impl Session {
    /// An identified or authenticated session always carries a nonzero
    /// omikron id, the peer's key and the issued challenge.
    pub open spec fn wf(self) -> bool {
        &&& (self.phase == Phase::Identified || self.phase == Phase::Challenged) ==> (
        self.omikron_id != 0 && self.peer_public_key is Some && self.challenge is Some)
        &&& self.phase == Phase::Opened ==> self.omikron_id == 0
        &&& self.pending.wf()
    }

    pub fn new() -> (r: Session)
        ensures
            r.wf(),
            r.phase == Phase::Opened,
            r.omikron_id == 0,
            r.last_ping_rtt_ms == -1,
            forall|id: Seq<char>| !(#[trigger] r.pending.has(id)),
    {
        Session {
            phase: Phase::Opened,
            omikron_id: 0,
            peer_public_key: None,
            challenge: None,
            last_ping_rtt_ms: -1,
            pending: PendingTable::new(),
        }
    }
}

} // verus!

verus! {

/// A user lookup key: by id or by unique username.
#[derive(Debug)]
pub enum UserKey {
    ById(i64),
    ByName(String),
}

/// A repository write the driver must apply; the outcome is turned into
/// the wire reply by `write_result_reply`.
#[derive(Debug)]
pub enum RepoOp {
    RegisterIota { iota_id: i64, public_key: String },
    RegisterUser { user_id: i64, username: String, public_key: String, iota_id: i64, reset_token: String },
    ChangeIota { user_id: i64, iota_id: i64, new_token: String },
    DeleteUser { user_id: i64 },
    DeleteIota { iota_id: i64 },
    PushNotification { receiver_id: i64, sender_id: i64 },
    ReadNotification { receiver_id: i64, sender_id: i64 },
}

/// One requested change to a user record, applied in order.
#[derive(Debug)]
pub enum UserChange {
    Username(String),
    Display(String),
    Avatar(String),
    About(String),
    Status(String),
    Keys { public_key: String, private_key_hash: String },
}

/// What the driver must do after one step of the session logic.
#[derive(Debug)]
pub enum Step {
    /// Send the reply; the session stays open.
    Reply(Msg),
    /// Send the reply, then close the connection.
    ReplyAndClose(Msg),
    /// Nothing to send.
    Done,
    /// The frame answered a pending request of this server; hand it to the
    /// awaiter instead of treating it as a fresh request.
    Consumed,
    /// Fetch the omikron record, then call `identification_continue`.
    NeedOmikronRecord { omikron_id: i64, msg_id: String },
    /// Fetch the ids of the iota's users, then call `iota_connected_continue`.
    NeedIotaUsers { iota_id: i64, msg_id: String },
    /// Fetch the ids of the iota's users, then untrack them all
    /// (`PresenceIndex::untrack_many_users`); nothing is sent.
    NeedIotaUsersForPurge { iota_id: i64 },
    /// Fetch a user record, then call `get_user_data_continue`.
    NeedUserRecord { key: UserKey, fallback: Option<UserKey>, msg_id: String },
    /// Fetch a user record, then call `get_iota_data_user_continue`.
    NeedUserForIota { key: UserKey, fallback: Option<UserKey>, msg_id: String },
    /// Fetch an iota record, then call `get_iota_data_continue`.
    NeedIotaRecord { iota_id: i64, user_id: Option<i64>, username: Option<String>, msg_id: String },
    /// Fetch the user record, then call `change_iota_continue`.
    NeedUserForIotaChange { user_id: i64, iota_id: i64, reset_token: String, new_token: String, msg_id: String },
    /// Apply the write, then reply with `write_result_reply`.
    RepoWrite { op: RepoOp, msg_id: String },
    /// Create a fresh iota with this key, then reply with `create_iota_reply`.
    CreateIota { public_key: String, msg_id: String },
    /// Apply the changes in order, stopping at the first failure; reply
    /// with `write_result_reply`, whose argument is the first repository
    /// error, or `trailing_error` when every listed change applied.
    ApplyUserChanges { user_id: i64, changes: Vec<UserChange>, trailing_error: Option<String>, msg_id: String },
    /// Fetch the user's notifications, then reply with `notifications_reply`.
    NeedNotifications { user_id: i64, msg_id: String },
}

/// The reply a step carries, if any.
pub open spec fn step_reply(r: Step) -> Option<Msg> {
    match r {
        Step::Reply(m) => Some(m),
        Step::ReplyAndClose(m) => Some(m),
        _ => None,
    }
}

/// Every reply of the step echoes the request id verbatim.
pub open spec fn step_echoes(r: Step, id: Seq<char>) -> bool {
    match step_reply(r) {
        Some(m) => m.id@ == id,
        None => true,
    }
}

/// A bare error frame of the given type, echoing the request id.
pub fn error_reply(t: MsgType, id: String) -> (r: Msg)
    ensures
        r.mtype == t,
        r.id == id,
        r.data@ == Seq::<(DataKey, crate::msg::DataVal)>::empty(),
{
    Msg::new(t, id)
}

/// Updates the peer-reported round trip and answers `pong`.
pub fn handle_ping(s: &mut Session, msg: &Msg) -> (r: Step)
    requires
        old(s).wf(),
    ensures
        final(s).wf(),
        final(s).phase == old(s).phase,
        final(s).omikron_id == old(s).omikron_id,
        final(s).peer_public_key == old(s).peer_public_key,
        final(s).challenge == old(s).challenge,
        final(s).pending.ids@ == old(s).pending.ids@,
        final(s).last_ping_rtt_ms == match msg.get_i64_spec(DataKey::LastPing) {
            Some(v) => v,
            None => old(s).last_ping_rtt_ms,
        },
        r matches Step::Reply(m) && m.mtype == MsgType::Pong && m.id@ == msg.id@ && m.data@
            == Seq::<(DataKey, crate::msg::DataVal)>::empty(),
{
    match msg.get_i64(DataKey::LastPing) {
        Some(v) => {
            s.last_ping_rtt_ms = v;
        },
        None => {},
    }
    Step::Reply(Msg::new(MsgType::Pong, msg.id.clone()))
}

/// Finishes identification once the directory answered: on a known
/// omikron with a well-formed stored key, issues the encrypted challenge
/// and moves to `Identified`; otherwise answers the precise error and the
/// session dies.
pub fn identification_continue(
    s: &mut Session,
    keys: &ServerKeys,
    omikron_id: i64,
    msg_id: String,
    record: Option<&OmikronRecord>,
) -> (r: Step)
    requires
        old(s).wf(),
        old(s).phase == Phase::Opened,
        keys.wf(),
        omikron_id != 0,
    ensures
        final(s).wf(),
        final(s).pending.ids@ == old(s).pending.ids@,
        final(s).last_ping_rtt_ms == old(s).last_ping_rtt_ms,
        step_echoes(r, msg_id@),
        record is None ==> (r matches Step::ReplyAndClose(m) && m.mtype
            == MsgType::ErrorNotAuthenticated && m.id@ == msg_id@ && final(s).phase
            == Phase::Closed),
        record matches Some(rec) ==> {
            &&& crypto::b64_decode_of(rec.public_key@) is None ==> (r matches Step::ReplyAndClose(
                m,
            ) && m.mtype == MsgType::ErrorInvalidOmikronId && m.id@ == msg_id@ && final(s).phase
                == Phase::Closed)
            &&& crypto::b64_decode_of(rec.public_key@) matches Some(pk) ==> {
                &&& !crypto::x448_public_ok(pk) ==> (r matches Step::ReplyAndClose(m) && m.mtype
                    == MsgType::ErrorInvalidPublicKey && m.id@ == msg_id@ && final(s).phase
                    == Phase::Closed)
                &&& crypto::x448_public_ok(pk) ==> {
                    &&& crypto::x448_shared_of(keys.secret@, pk) is None ==> (r
                        matches Step::ReplyAndClose(m) && m.mtype == MsgType::ErrorInternal && m.id@
                        == msg_id@ && final(s).phase == Phase::Closed)
                    &&& crypto::x448_shared_of(keys.secret@, pk) matches Some(sh) ==> (r
                        matches Step::Reply(m) && m.mtype == MsgType::Challenge && m.id@ == msg_id@
                        && final(s).phase == Phase::Identified && final(s).omikron_id == omikron_id
                        && (final(s).peer_public_key matches Some(b) && b@ == pk) && (final(s).challenge matches Some(c) && c@.len() == 32 && m.get_str_spec(
                        DataKey::PublicKey,
                    ) == Some(keys.public_b64@) && m.get_str_spec(DataKey::Challenge) == Some(
                        crypto::b64_encode_of(
                            crypto::spec_seal_with(sh, vstd::utf8::encode_utf8(c@)),
                        ),
                    )))
                }
            }
        },
{
    let rec = match record {
        Some(rec) => rec,
        None => {
            s.phase = Phase::Closed;
            return Step::ReplyAndClose(error_reply(MsgType::ErrorNotAuthenticated, msg_id));
        },
    };
    let pk_bytes = match crypto::b64_decode(rec.public_key.as_str()) {
        Some(b) => b,
        None => {
            s.phase = Phase::Closed;
            return Step::ReplyAndClose(error_reply(MsgType::ErrorInvalidOmikronId, msg_id));
        },
    };
    if !crypto::x448_public_check(pk_bytes.as_slice()) {
        s.phase = Phase::Closed;
        return Step::ReplyAndClose(error_reply(MsgType::ErrorInvalidPublicKey, msg_id));
    }
    let challenge = crate::entropy::random_alphanumeric_32();
    proof {
        assert(vstd::utf8::is_ascii_chars(challenge@)) by {
            assert forall|i: int| 0 <= i < challenge@.len() implies '\0' <= #[trigger] challenge@[i]
                <= '\u{7f}' by {}
        }
        vstd::utf8::is_ascii_chars_encode_utf8(challenge@);
        assert(vstd::utf8::encode_utf8(challenge@).len() == 32);
    }
    let challenge_bytes = challenge.as_str().as_bytes_vec();
    let encrypted = match crypto::encrypt(&keys.secret, &pk_bytes, &challenge_bytes) {
        Ok(c) => c,
        Err(_) => {
            s.phase = Phase::Closed;
            return Step::ReplyAndClose(error_reply(MsgType::ErrorInternal, msg_id));
        },
    };
    let encrypted_b64 = crypto::b64_encode(encrypted.as_slice());
    s.omikron_id = omikron_id;
    s.peer_public_key = Some(pk_bytes);
    s.challenge = Some(challenge);
    s.phase = Phase::Identified;
    let m0 = Msg::new(MsgType::Challenge, msg_id);
    let m1 = m0.add_data_str(DataKey::PublicKey, keys.public_b64.clone());
    let reply = m1.add_data_str(DataKey::Challenge, encrypted_b64);
    proof {
        assert(reply.get_spec(DataKey::Challenge) is Some);
        assert(reply.get_spec(DataKey::PublicKey) == m1.get_spec(DataKey::PublicKey));
        assert(m1.get_spec(DataKey::PublicKey) is Some);
        assert(reply.get_str_spec(DataKey::PublicKey) == Some(keys.public_b64@));
    }
    Step::Reply(reply)
}

/// Ends the session.  A fully authenticated session is deregistered and
/// every presence entry referencing its omikron is purged; the returned
/// iotas went offline with it, and the driver should look their users up
/// and untrack them too.  A session that never authenticated leaves no
/// trace to clean.
pub fn close_session(
    s: &mut Session,
    presence: &mut PresenceIndex,
    registry: &mut OmikronRegistry,
) -> (emptied: Vec<i64>)
    requires
        old(s).wf(),
        old(presence).wf(),
        old(registry).wf(),
    ensures
        final(s).wf(),
        final(presence).wf(),
        final(registry).wf(),
        final(s).phase == Phase::Closed,
        old(s).phase == Phase::Challenged ==> {
            &&& final(presence).no_refs_to(old(s).omikron_id)
            &&& !final(registry).registered(old(s).omikron_id)
            &&& forall|k: i64|
                #[trigger] emptied@.contains(k) <==> (old(presence).has_iota(k) && old(presence).replicas_of(k).filter(crate::presence::not_omikron(old(s).omikron_id)).len()
                    == 0)
        },
        old(s).phase != Phase::Challenged ==> (*final(presence) == *old(presence) && *final(registry) == *old(registry) && emptied@.len() == 0),
{
    let was_challenged = matches!(s.phase, Phase::Challenged);
    s.phase = Phase::Closed;
    if was_challenged {
        registry.remove_omikron(s.omikron_id);
        presence.untrack_omikron(s.omikron_id)
    } else {
        Vec::new()
    }
}

} // verus!

verus! {

/// A frame that is neither a keep-alive nor the answer to a pending
/// request of this server, and so is dispatched as a fresh request.
pub open spec fn fresh_frame(s: Session, msg: Msg) -> bool {
    msg.mtype != MsgType::Ping && !s.pending.has(msg.id@)
}

/// The session state, field for field.
pub open spec fn session_unchanged(a: Session, b: Session) -> bool {
    &&& b.phase == a.phase
    &&& b.omikron_id == a.omikron_id
    &&& b.peer_public_key == a.peer_public_key
    &&& b.challenge == a.challenge
    &&& b.last_ping_rtt_ms == a.last_ping_rtt_ms
    &&& b.pending.ids@ == a.pending.ids@
}

/// The step is a plain (non-closing) error reply of the given type.
pub open spec fn replies_error(r: Step, t: MsgType, id: Seq<char>) -> bool {
    r matches Step::Reply(m) && m.mtype == t && m.id@ == id
}

/// The user-record changes a `change_user_data` frame asks for, in the
/// order they are applied: username, display, avatar, about, status, and
/// the key pair (only when the private key hash comes along).
pub open spec fn spec_user_changes(m: Msg) -> Seq<UserChange> {
    let a = match crate::msg::spec_get(m.data@, DataKey::Username) {
        Some(crate::msg::DataVal::Str(s)) => seq![UserChange::Username(s)],
        _ => Seq::<UserChange>::empty(),
    };
    let b = match crate::msg::spec_get(m.data@, DataKey::Display) {
        Some(crate::msg::DataVal::Str(s)) => seq![UserChange::Display(s)],
        _ => Seq::<UserChange>::empty(),
    };
    let c = match crate::msg::spec_get(m.data@, DataKey::Avatar) {
        Some(crate::msg::DataVal::Str(s)) => seq![UserChange::Avatar(s)],
        _ => Seq::<UserChange>::empty(),
    };
    let d = match crate::msg::spec_get(m.data@, DataKey::About) {
        Some(crate::msg::DataVal::Str(s)) => seq![UserChange::About(s)],
        _ => Seq::<UserChange>::empty(),
    };
    let e = match crate::msg::spec_get(m.data@, DataKey::Status) {
        Some(crate::msg::DataVal::Str(s)) => seq![UserChange::Status(s)],
        _ => Seq::<UserChange>::empty(),
    };
    let f = match (
        crate::msg::spec_get(m.data@, DataKey::PublicKey),
        crate::msg::spec_get(m.data@, DataKey::PrivateKeyHash),
    ) {
        (Some(crate::msg::DataVal::Str(p)), Some(crate::msg::DataVal::Str(h))) => seq![
            UserChange::Keys { public_key: p, private_key_hash: h },
        ],
        _ => Seq::<UserChange>::empty(),
    };
    a + b + c + d + e + f
}

/// A new public key was supplied without the required private key hash.
pub open spec fn spec_keys_missing_hash(m: Msg) -> bool {
    &&& m.get_str_spec(DataKey::PublicKey) is Some
    &&& m.get_str_spec(DataKey::PrivateKeyHash) is None
}

/// Reads the requested user-record changes off the frame, in application
/// order, together with the validation error a key change without its
/// hash earns (reported after the listed changes are applied).
pub fn plan_user_changes(msg: &Msg) -> (r: (Vec<UserChange>, Option<String>))
    ensures
        r.0@ == spec_user_changes(*msg),
        r.1 is Some <==> spec_keys_missing_hash(*msg),
        r.1 matches Some(e) ==> e@ == "private_key_hash is required when changing public_key"@,
{
    let mut changes: Vec<UserChange> = Vec::new();
    match msg.get_str(DataKey::Username) {
        Some(s) => {
            changes.push(UserChange::Username(s.clone()));
        },
        None => {},
    }
    match msg.get_str(DataKey::Display) {
        Some(s) => {
            changes.push(UserChange::Display(s.clone()));
        },
        None => {},
    }
    match msg.get_str(DataKey::Avatar) {
        Some(s) => {
            changes.push(UserChange::Avatar(s.clone()));
        },
        None => {},
    }
    match msg.get_str(DataKey::About) {
        Some(s) => {
            changes.push(UserChange::About(s.clone()));
        },
        None => {},
    }
    match msg.get_str(DataKey::Status) {
        Some(s) => {
            changes.push(UserChange::Status(s.clone()));
        },
        None => {},
    }
    let mut trailing: Option<String> = None;
    match msg.get_str(DataKey::PublicKey) {
        Some(p) => {
            match msg.get_str(DataKey::PrivateKeyHash) {
                Some(h) => {
                    changes.push(
                        UserChange::Keys { public_key: p.clone(), private_key_hash: h.clone() },
                    );
                },
                None => {
                    trailing = Some(
                        "private_key_hash is required when changing public_key".to_owned(),
                    );
                },
            }
        },
        None => {},
    }
    proof {
        assert(changes@ =~= spec_user_changes(*msg));
    }
    (changes, trailing)
}

} // verus!

verus! {

/// The five fields a `complete_register_user` frame must carry.
pub open spec fn spec_register_user_fields(m: Msg) -> Option<(i64, Seq<char>, Seq<char>, i64, Seq<char>)> {
    if m.get_i64_spec(DataKey::UserId) is Some && m.get_str_spec(DataKey::Username) is Some
        && m.get_str_spec(DataKey::PublicKey) is Some && m.get_i64_spec(DataKey::IotaId) is Some
        && m.get_str_spec(DataKey::ResetToken) is Some {
        Some(
            (
                m.get_i64_spec(DataKey::UserId).unwrap(),
                m.get_str_spec(DataKey::Username).unwrap(),
                m.get_str_spec(DataKey::PublicKey).unwrap(),
                m.get_i64_spec(DataKey::IotaId).unwrap(),
                m.get_str_spec(DataKey::ResetToken).unwrap(),
            ),
        )
    } else {
        None
    }
}

/// The four fields a `change_iota_data` frame must carry.
pub open spec fn spec_change_iota_fields(m: Msg) -> Option<(i64, i64, Seq<char>, Seq<char>)> {
    if m.get_i64_spec(DataKey::UserId) is Some && m.get_i64_spec(DataKey::IotaId) is Some
        && m.get_str_spec(DataKey::ResetToken) is Some && m.get_str_spec(DataKey::NewToken)
        is Some {
        Some(
            (
                m.get_i64_spec(DataKey::UserId).unwrap(),
                m.get_i64_spec(DataKey::IotaId).unwrap(),
                m.get_str_spec(DataKey::ResetToken).unwrap(),
                m.get_str_spec(DataKey::NewToken).unwrap(),
            ),
        )
    } else {
        None
    }
}

/// Drives one inbound frame through the session: keep-alives first, then
/// answers to pending requests (consumed exactly once), then the
/// handshake state machine, and only for a fully authenticated session
/// the request dispatcher.  Every reply echoes the frame's id verbatim.
#[verifier::rlimit(100)]
pub fn session_step(
    s: &mut Session,
    presence: &mut PresenceIndex,
    registry: &mut OmikronRegistry,
    links: &mut ShortLinks,
    alloc: &mut RegisterAllocator,
    keys: &ServerKeys,
    msg: &Msg,
) -> (r: Step)
    requires
        old(s).wf(),
        old(presence).wf(),
        old(registry).wf(),
        old(links).wf(),
        keys.wf(),
        old(alloc).last < 0x7fff_ffff_ffff_ffff,
    ensures
        final(s).wf(),
        final(presence).wf(),
        final(registry).wf(),
        final(links).wf(),
        step_echoes(r, msg.id@),
        // keep-alive: update the round trip, answer pong, touch nothing else
        msg.mtype == MsgType::Ping ==> {
            &&& r matches Step::Reply(m) && m.mtype == MsgType::Pong && m.id@ == msg.id@
            &&& final(s).phase == old(s).phase && final(s).omikron_id == old(s).omikron_id
                && final(s).pending.ids@ == old(s).pending.ids@
            &&& final(s).last_ping_rtt_ms == (match msg.get_i64_spec(DataKey::LastPing) {
                Some(v) => v,
                None => old(s).last_ping_rtt_ms,
            })
            &&& *final(presence) == *old(presence) && *final(registry) == *old(registry)
                && *final(links) == *old(links) && *final(alloc) == *old(alloc)
        },
        // a response to a request of ours is consumed exactly once
        (msg.mtype != MsgType::Ping && old(s).pending.has(msg.id@)) ==> {
            &&& r matches Step::Consumed
            &&& !final(s).pending.has(msg.id@)
            &&& forall|o: Seq<char>|
                o != msg.id@ ==> #[trigger] final(s).pending.has(o) == old(s).pending.has(o)
            &&& final(s).phase == old(s).phase && final(s).omikron_id == old(s).omikron_id
            &&& *final(presence) == *old(presence) && *final(registry) == *old(registry)
                && *final(links) == *old(links) && *final(alloc) == *old(alloc)
        },
        // opened: only identification is admitted
        (fresh_frame(*old(s), *msg) && old(s).phase == Phase::Opened) ==> {
            &&& msg.get_i64_spec(DataKey::Omikron) matches Some(oid) ==> ((msg.mtype
                == MsgType::Identification && oid != 0) ==> (r matches Step::NeedOmikronRecord {
                omikron_id,
                msg_id,
            } && omikron_id == oid && msg_id@ == msg.id@ && session_unchanged(
                *old(s),
                *final(s),
            )))
            &&& !(msg.mtype == MsgType::Identification && (msg.get_i64_spec(DataKey::Omikron)
                matches Some(oid) && oid != 0)) ==> (r matches Step::ReplyAndClose(m) && m.mtype
                == MsgType::ErrorNotAuthenticated && m.id@ == msg.id@ && final(s).phase
                == Phase::Closed)
            &&& *final(presence) == *old(presence) && *final(registry) == *old(registry)
                && *final(links) == *old(links) && *final(alloc) == *old(alloc)
        },
        // identified: only the matching challenge response is admitted
        (fresh_frame(*old(s), *msg) && old(s).phase == Phase::Identified) ==> {
            &&& old(s).challenge matches Some(c) ==> {
                &&& (msg.mtype == MsgType::ChallengeResponse && msg.get_str_spec(
                    DataKey::Challenge,
                ) == Some(c@)) ==> {
                    &&& final(s).phase == Phase::Challenged
                    &&& final(s).omikron_id == old(s).omikron_id
                    &&& forall|o: i64|
                        #[trigger] final(registry).registered(o) <==> (old(registry).registered(o)
                            || o == old(s).omikron_id)
                    &&& r matches Step::Reply(m) && m.mtype == MsgType::IdentificationResponse
                        && m.id@ == msg.id@ && m.get_bool_spec(DataKey::Accepted) == Some(true)
                }
                &&& (msg.mtype == MsgType::ChallengeResponse && msg.get_str_spec(
                    DataKey::Challenge,
                ) != Some(c@)) ==> {
                    &&& final(s).phase == Phase::Closed
                    &&& *final(registry) == *old(registry)
                    &&& r matches Step::ReplyAndClose(m) && m.mtype
                        == MsgType::ErrorInvalidChallenge && m.id@ == msg.id@
                }
            }
            &&& msg.mtype != MsgType::ChallengeResponse ==> (r matches Step::ReplyAndClose(m)
                && m.mtype == MsgType::ErrorNotAuthenticated && m.id@ == msg.id@ && final(s).phase
                == Phase::Closed && *final(registry) == *old(registry))
            &&& *final(presence) == *old(presence) && *final(links) == *old(links) && *final(alloc) == *old(alloc)
        },
        (fresh_frame(*old(s), *msg) && old(s).phase == Phase::Closed) ==> (r matches Step::Done
            && session_unchanged(*old(s), *final(s)) && *final(presence) == *old(presence)
            && *final(registry) == *old(registry) && *final(links) == *old(links) && *final(alloc)
            == *old(alloc)),
        // authenticated dispatch: the session itself and the registry never change
        (fresh_frame(*old(s), *msg) && old(s).phase == Phase::Challenged) ==> {
            &&& session_unchanged(*old(s), *final(s))
            &&& *final(registry) == *old(registry)
            &&& !(msg.mtype == MsgType::UserConnected || msg.mtype == MsgType::UserDisconnected
                || msg.mtype == MsgType::IotaConnected || msg.mtype == MsgType::IotaDisconnected
                || msg.mtype == MsgType::SyncClientIotaStatus) ==> *final(presence) == *old(presence)
            &&& msg.mtype != MsgType::ShortenLink ==> *final(links) == *old(links)
            &&& msg.mtype != MsgType::GetRegister ==> *final(alloc) == *old(alloc)
        },
        (fresh_frame(*old(s), *msg) && old(s).phase == Phase::Challenged) ==> ({
            msg.mtype == MsgType::UserConnected ==> (match msg.get_i64_spec(DataKey::UserId) {
                Some(uid) => {
                    &&& r matches Step::Done
                    &&& final(presence).user_of(uid) == Some(
                        crate::presence::UserConnection {
                            connection_type: ConnectionType::Online,
                            omikron_id: old(s).omikron_id,
                        },
                    )
                    &&& forall|u: i64|
                        u != uid ==> #[trigger] final(presence).user_of(u) == old(presence).user_of(u)
                    &&& final(presence).iotas@ == old(presence).iotas@
                },
                None => replies_error(r, MsgType::ErrorInvalidData, msg.id@) && *final(presence)
                    == *old(presence),
            })
        }),
        (fresh_frame(*old(s), *msg) && old(s).phase == Phase::Challenged) ==> ({
            msg.mtype == MsgType::UserDisconnected ==> (match msg.get_i64_spec(
                DataKey::UserId,
            ) {
                Some(uid) => {
                    &&& r matches Step::Done
                    &&& final(presence).user_of(uid) == (match old(presence).user_of(uid) {
                        Some(c0) => Some(
                            crate::presence::UserConnection {
                                connection_type: ConnectionType::UserOffline,
                                omikron_id: c0.omikron_id,
                            },
                        ),
                        None => None,
                    })
                    &&& forall|u: i64|
                        u != uid ==> #[trigger] final(presence).user_of(u) == old(presence).user_of(u)
                    &&& final(presence).iotas@ == old(presence).iotas@
                },
                None => replies_error(r, MsgType::ErrorInvalidData, msg.id@) && *final(presence)
                    == *old(presence),
            })
        }),
        (fresh_frame(*old(s), *msg) && old(s).phase == Phase::Challenged) ==> ({
            msg.mtype == MsgType::IotaConnected ==> (match msg.get_i64_spec(DataKey::IotaId) {
                Some(iid) => {
                    &&& r matches Step::NeedIotaUsers { iota_id, msg_id } && iota_id == iid
                        && msg_id@ == msg.id@
                    &&& final(presence).primary_of(iid) == Some(old(s).omikron_id)
                    &&& final(presence).replicas_of(iid) == (if old(presence).replicas_of(
                        iid,
                    ).contains(old(s).omikron_id) {
                        old(presence).replicas_of(iid)
                    } else {
                        old(presence).replicas_of(iid).push(old(s).omikron_id)
                    })
                    &&& forall|k: i64|
                        k != iid ==> #[trigger] final(presence).replicas_of(k) == old(presence).replicas_of(k)
                    &&& forall|k: i64|
                        k != iid ==> #[trigger] final(presence).primary_of(k) == old(presence).primary_of(k)
                    &&& final(presence).users@ == old(presence).users@
                },
                None => replies_error(r, MsgType::ErrorInvalidData, msg.id@) && *final(presence)
                    == *old(presence),
            })
        }),
        (fresh_frame(*old(s), *msg) && old(s).phase == Phase::Challenged) ==> ({
            msg.mtype == MsgType::IotaDisconnected ==> (match msg.get_i64_spec(
                DataKey::IotaId,
            ) {
                Some(iid) => {
                    &&& final(presence).replicas_of(iid) == (if old(presence).has_iota(iid) && old(presence).replicas_of(iid).filter(crate::presence::not_omikron(old(s).omikron_id)).len() > 0 {
                        old(presence).replicas_of(iid).filter(crate::presence::not_omikron(old(s).omikron_id))
                    } else {
                        Seq::<i64>::empty()
                    })
                    &&& r == (if old(presence).has_iota(iid) && old(presence).replicas_of(
                        iid,
                    ).filter(crate::presence::not_omikron(old(s).omikron_id)).len() == 0 {
                        Step::NeedIotaUsersForPurge { iota_id: iid }
                    } else {
                        Step::Done
                    })
                    &&& forall|k: i64|
                        k != iid ==> #[trigger] final(presence).replicas_of(k) == old(presence).replicas_of(k)
                    &&& forall|k: i64|
                        k != iid ==> #[trigger] final(presence).primary_of(k) == old(presence).primary_of(k)
                    &&& final(presence).users@ == old(presence).users@
                },
                None => replies_error(r, MsgType::ErrorInvalidData, msg.id@) && *final(presence)
                    == *old(presence),
            })
        }),
        (fresh_frame(*old(s), *msg) && old(s).phase == Phase::Challenged) ==> ({
            msg.mtype == MsgType::SyncClientIotaStatus ==> {
                &&& r matches Step::Done
                &&& (match msg.get_int_list_spec(DataKey::UserIds) {
                    Some(us) => forall|u: i64|
                        us.contains(u) ==> #[trigger] final(presence).user_of(u) == Some(
                            crate::presence::UserConnection {
                                connection_type: ConnectionType::Online,
                                omikron_id: old(s).omikron_id,
                            },
                        ),
                    None => true,
                })
                &&& (match msg.get_int_list_spec(DataKey::IotaIds) {
                    Some(is_) => forall|k: i64|
                        is_.contains(k) ==> #[trigger] final(presence).primary_of(k) == Some(old(s).omikron_id)
                            && final(presence).replicas_of(k).contains(old(s).omikron_id),
                    None => true,
                })
            }
        }),
        (fresh_frame(*old(s), *msg) && old(s).phase == Phase::Challenged) ==> ({
            msg.mtype == MsgType::ShortenLink ==> (match msg.get_str_spec(DataKey::Link) {
                Some(link) => {
                    &&& r matches Step::Reply(m) && m.mtype == MsgType::ShortenLink && m.id@
                        == msg.id@
                    &&& exists|sh: Seq<char>|
                        !old(links).has_short(sh) && #[trigger] final(links).has_short(sh)
                            && final(links).long_of(sh) == Some(link) && (r matches Step::Reply(m)
                            && m.get_str_spec(DataKey::Link) == Some(
                            "omega.tensamin.net/direct/"@ + crate::shortlink::spec_dashed(sh),
                        ))
                },
                None => replies_error(r, MsgType::ErrorInvalidData, msg.id@) && *final(links)
                    == *old(links),
            })
        }),
        (fresh_frame(*old(s), *msg) && old(s).phase == Phase::Challenged) ==> ({
            msg.mtype == MsgType::GetRegister ==> {
                &&& final(alloc).last > old(alloc).last
                &&& (final(alloc).last <= 0x7fff_ffff_ffff_ffff ==> (r matches Step::Reply(m)
                    && m.mtype == MsgType::GetRegister && m.id@ == msg.id@ && m.get_i64_spec(
                    DataKey::UserId,
                ) == Some(final(alloc).last as i64)))
                &&& (final(alloc).last > 0x7fff_ffff_ffff_ffff ==> replies_error(
                    r,
                    MsgType::ErrorInternal,
                    msg.id@,
                ))
            }
        }),
        (fresh_frame(*old(s), *msg) && old(s).phase == Phase::Challenged) ==> ({
            msg.mtype == MsgType::GetUserData ==> {
                &&& msg.get_i64_spec(DataKey::UserId) matches Some(uid) ==> (r
                    matches Step::NeedUserRecord { key, fallback, msg_id } && key
                    matches UserKey::ById(u) && u == uid && msg_id@ == msg.id@ && (match fallback {
                    Some(UserKey::ByName(n)) => msg.get_str_spec(DataKey::Username) == Some(n@),
                    None => msg.get_str_spec(DataKey::Username) is None,
                    _ => false,
                }))
                &&& msg.get_str_spec(DataKey::Username) matches Some(name)
                    ==> (msg.get_i64_spec(DataKey::UserId) is None ==> (r
                    matches Step::NeedUserRecord { key, fallback, msg_id } && key
                    matches UserKey::ByName(n) && n@ == name && fallback is None && msg_id@
                    == msg.id@))
                &&& (msg.get_i64_spec(DataKey::UserId) is None && msg.get_str_spec(
                    DataKey::Username,
                ) is None) ==> replies_error(r, MsgType::ErrorNotFound, msg.id@)
            }
        }),
        (fresh_frame(*old(s), *msg) && old(s).phase == Phase::Challenged) ==> ({
            msg.mtype == MsgType::GetIotaData ==> {
                &&& msg.get_i64_spec(DataKey::IotaId) matches Some(iid) ==> (r
                    matches Step::NeedIotaRecord { iota_id, user_id, username, msg_id } && iota_id
                    == iid && user_id is None && username is None && msg_id@ == msg.id@)
                &&& msg.get_i64_spec(DataKey::UserId) matches Some(uid)
                    ==> (msg.get_i64_spec(DataKey::IotaId) is None ==> (r
                    matches Step::NeedUserForIota { key, fallback, msg_id } && key
                    matches UserKey::ById(u) && u == uid && msg_id@ == msg.id@))
                &&& msg.get_str_spec(DataKey::Username) matches Some(name) ==> ((
                msg.get_i64_spec(DataKey::IotaId) is None && msg.get_i64_spec(DataKey::UserId)
                    is None) ==> (r matches Step::NeedUserForIota { key, fallback, msg_id } && key
                    matches UserKey::ByName(n) && n@ == name && fallback is None && msg_id@
                    == msg.id@))
                &&& (msg.get_i64_spec(DataKey::IotaId) is None && msg.get_i64_spec(DataKey::UserId)
                    is None && msg.get_str_spec(DataKey::Username) is None) ==> replies_error(
                    r,
                    MsgType::ErrorNotFound,
                    msg.id@,
                )
            }
        }),
        (fresh_frame(*old(s), *msg) && old(s).phase == Phase::Challenged) ==> ({
            msg.mtype == MsgType::CompleteRegisterIota ==> (match msg.get_str_spec(
                DataKey::PublicKey,
            ) {
                Some(pk) => {
                    &&& msg.get_i64_spec(DataKey::IotaId) matches Some(iid) ==> (r
                        matches Step::RepoWrite { op, msg_id } && op matches RepoOp::RegisterIota {
                        iota_id,
                        public_key,
                    } && iota_id == iid && public_key@ == pk && msg_id@ == msg.id@)
                    &&& (msg.get_i64_spec(DataKey::IotaId) is None) ==> (r
                        matches Step::CreateIota { public_key, msg_id } && public_key@ == pk
                        && msg_id@ == msg.id@)
                },
                None => replies_error(r, MsgType::ErrorInvalidData, msg.id@),
            })
        }),
        (fresh_frame(*old(s), *msg) && old(s).phase == Phase::Challenged) ==> ({
            msg.mtype == MsgType::CompleteRegisterUser ==> (match spec_register_user_fields(
                *msg,
            ) {
                Some(f) => r matches Step::RepoWrite { op, msg_id } && op
                    matches RepoOp::RegisterUser {
                    user_id,
                    username,
                    public_key,
                    iota_id,
                    reset_token,
                } && user_id == f.0 && username@ == f.1 && public_key@ == f.2 && iota_id == f.3
                    && reset_token@ == f.4 && msg_id@ == msg.id@,
                None => replies_error(r, MsgType::ErrorInvalidData, msg.id@),
            })
        }),
        (fresh_frame(*old(s), *msg) && old(s).phase == Phase::Challenged) ==> ({
            msg.mtype == MsgType::ChangeUserData ==> (match msg.get_i64_spec(DataKey::UserId) {
                Some(uid) => r matches Step::ApplyUserChanges {
                    user_id,
                    changes,
                    trailing_error,
                    msg_id,
                } && user_id == uid && changes@ == spec_user_changes(*msg) && (trailing_error
                    is Some <==> spec_keys_missing_hash(*msg)) && msg_id@ == msg.id@,
                None => replies_error(r, MsgType::ErrorInvalidData, msg.id@),
            })
        }),
        (fresh_frame(*old(s), *msg) && old(s).phase == Phase::Challenged) ==> ({
            msg.mtype == MsgType::ChangeIotaData ==> (match spec_change_iota_fields(*msg) {
                Some(f) => r matches Step::NeedUserForIotaChange {
                    user_id,
                    iota_id,
                    reset_token,
                    new_token,
                    msg_id,
                } && user_id == f.0 && iota_id == f.1 && reset_token@ == f.2 && new_token@ == f.3
                    && msg_id@ == msg.id@,
                None => replies_error(r, MsgType::ErrorInvalidData, msg.id@),
            })
        }),
        (fresh_frame(*old(s), *msg) && old(s).phase == Phase::Challenged) ==> ({
            msg.mtype == MsgType::DeleteUser ==> (match msg.get_i64_spec(DataKey::UserId) {
                Some(uid) => r matches Step::RepoWrite { op, msg_id } && op
                    matches RepoOp::DeleteUser { user_id } && user_id == uid && msg_id@ == msg.id@,
                None => replies_error(r, MsgType::ErrorInvalidData, msg.id@),
            })
        }),
        (fresh_frame(*old(s), *msg) && old(s).phase == Phase::Challenged) ==> ({
            msg.mtype == MsgType::DeleteIota ==> (match msg.get_i64_spec(DataKey::IotaId) {
                Some(iid) => r matches Step::RepoWrite { op, msg_id } && op
                    matches RepoOp::DeleteIota { iota_id } && iota_id == iid && msg_id@ == msg.id@,
                None => replies_error(r, MsgType::ErrorInvalidData, msg.id@),
            })
        }),
        (fresh_frame(*old(s), *msg) && old(s).phase == Phase::Challenged) ==> ({
            msg.mtype == MsgType::GetNotifications ==> (match msg.get_i64_spec(
                DataKey::UserId,
            ) {
                Some(uid) => r matches Step::NeedNotifications { user_id, msg_id } && user_id
                    == uid && msg_id@ == msg.id@,
                None => replies_error(r, MsgType::ErrorInvalidData, msg.id@),
            })
        }),
        (fresh_frame(*old(s), *msg) && old(s).phase == Phase::Challenged) ==> ({
            msg.mtype == MsgType::PushNotification ==> (match (
                msg.get_i64_spec(DataKey::ReceiverId),
                msg.get_i64_spec(DataKey::SenderId),
            ) {
                (Some(rid), Some(sid)) => r matches Step::RepoWrite { op, msg_id } && op
                    matches RepoOp::PushNotification { receiver_id, sender_id } && receiver_id
                    == rid && sender_id == sid && msg_id@ == msg.id@,
                _ => replies_error(r, MsgType::ErrorInvalidData, msg.id@),
            })
        }),
        (fresh_frame(*old(s), *msg) && old(s).phase == Phase::Challenged) ==> ({
            msg.mtype == MsgType::ReadNotification ==> (match (
                msg.get_i64_spec(DataKey::ReceiverId),
                msg.get_i64_spec(DataKey::SenderId),
            ) {
                (Some(rid), Some(sid)) => r matches Step::RepoWrite { op, msg_id } && op
                    matches RepoOp::ReadNotification { receiver_id, sender_id } && receiver_id
                    == rid && sender_id == sid && msg_id@ == msg.id@,
                _ => replies_error(r, MsgType::ErrorInvalidData, msg.id@),
            })
        }),
        (fresh_frame(*old(s), *msg) && old(s).phase == Phase::Challenged) ==> ({
            !(msg.mtype == MsgType::UserConnected || msg.mtype == MsgType::UserDisconnected
                || msg.mtype == MsgType::IotaConnected || msg.mtype == MsgType::IotaDisconnected
                || msg.mtype == MsgType::SyncClientIotaStatus || msg.mtype == MsgType::ShortenLink
                || msg.mtype == MsgType::GetRegister || msg.mtype == MsgType::GetUserData
                || msg.mtype == MsgType::GetIotaData || msg.mtype == MsgType::CompleteRegisterIota
                || msg.mtype == MsgType::CompleteRegisterUser || msg.mtype
                == MsgType::ChangeUserData || msg.mtype == MsgType::ChangeIotaData || msg.mtype
                == MsgType::DeleteUser || msg.mtype == MsgType::DeleteIota || msg.mtype
                == MsgType::GetNotifications || msg.mtype == MsgType::PushNotification
                || msg.mtype == MsgType::ReadNotification) ==> r matches Step::Done
        }),
{
    if msg.is_type(MsgType::Ping) {
        return handle_ping(s, msg);
    }
    if s.pending.take(msg.id.as_str()) {
        return Step::Consumed;
    }
    match s.phase {
        Phase::Opened => {
            if msg.is_type(MsgType::Identification) {
                match msg.get_i64(DataKey::Omikron) {
                    Some(oid) if oid != 0 => {
                        return Step::NeedOmikronRecord {
                            omikron_id: oid,
                            msg_id: msg.id.clone(),
                        };
                    },
                    _ => {},
                }
            }
            s.phase = Phase::Closed;
            Step::ReplyAndClose(error_reply(MsgType::ErrorNotAuthenticated, msg.id.clone()))
        },
        Phase::Identified => {
            if msg.is_type(MsgType::ChallengeResponse) {
                let matched = match (msg.get_str(DataKey::Challenge), &s.challenge) {
                    (Some(given), Some(want)) => string_eq(want, given.as_str()),
                    _ => false,
                };
                if matched {
                    s.phase = Phase::Challenged;
                    registry.add_omikron(s.omikron_id);
                    let reply = Msg::new(MsgType::IdentificationResponse, msg.id.clone())
                        .add_data_bool(DataKey::Accepted, true);
                    proof {
                        assert(reply.get_spec(DataKey::Accepted) is Some);
                    }
                    Step::Reply(reply)
                } else {
                    s.phase = Phase::Closed;
                    Step::ReplyAndClose(
                        error_reply(MsgType::ErrorInvalidChallenge, msg.id.clone()),
                    )
                }
            } else {
                s.phase = Phase::Closed;
                Step::ReplyAndClose(error_reply(MsgType::ErrorNotAuthenticated, msg.id.clone()))
            }
        },
        Phase::Closed => Step::Done,
        Phase::Challenged => {
            let om = s.omikron_id;
            match msg.mtype {
                MsgType::UserConnected => {
                    match msg.get_i64(DataKey::UserId) {
                        Some(uid) => {
                            presence.track_user_status(uid, ConnectionType::Online, om);
                            Step::Done
                        },
                        None => Step::Reply(
                            error_reply(MsgType::ErrorInvalidData, msg.id.clone()),
                        ),
                    }
                },
                MsgType::UserDisconnected => {
                    match msg.get_i64(DataKey::UserId) {
                        Some(uid) => {
                            match presence.get_user_status(uid) {
                                Some(c0) => {
                                    presence.track_user_status(
                                        uid,
                                        ConnectionType::UserOffline,
                                        c0.omikron_id,
                                    );
                                },
                                None => {},
                            }
                            Step::Done
                        },
                        None => Step::Reply(
                            error_reply(MsgType::ErrorInvalidData, msg.id.clone()),
                        ),
                    }
                },
                MsgType::IotaConnected => {
                    match msg.get_i64(DataKey::IotaId) {
                        Some(iid) => {
                            presence.track_iota_connection(iid, om, true);
                            Step::NeedIotaUsers { iota_id: iid, msg_id: msg.id.clone() }
                        },
                        None => Step::Reply(
                            error_reply(MsgType::ErrorInvalidData, msg.id.clone()),
                        ),
                    }
                },
                MsgType::IotaDisconnected => {
                    match msg.get_i64(DataKey::IotaId) {
                        Some(iid) => {
                            let became_empty = presence.untrack_iota_connection(iid, om);
                            if became_empty {
                                Step::NeedIotaUsersForPurge { iota_id: iid }
                            } else {
                                Step::Done
                            }
                        },
                        None => Step::Reply(
                            error_reply(MsgType::ErrorInvalidData, msg.id.clone()),
                        ),
                    }
                },
                MsgType::SyncClientIotaStatus => {
                    match msg.get_int_list(DataKey::UserIds) {
                        Some(us) => {
                            let us_copy = crate::strutil::copy_vec_i64(us);
                            crate::presence::mark_users_status(
                                presence,
                                &us_copy,
                                ConnectionType::Online,
                                om,
                            );
                        },
                        None => {},
                    }
                    let ghost mid = *presence;
                    match msg.get_int_list(DataKey::IotaIds) {
                        Some(is_) => {
                            let is_copy = crate::strutil::copy_vec_i64(is_);
                            crate::presence::mark_iotas_primary(presence, &is_copy, om);
                        },
                        None => {},
                    }
                    proof {
                        assert(presence.users@ == mid.users@);
                        assert forall|u: i64| #[trigger] presence.user_of(u) == mid.user_of(
                            u,
                        ) by {}
                    }
                    Step::Done
                },
                MsgType::ShortenLink => {
                    match msg.get_str(DataKey::Link) {
                        Some(link) => {
                            let short = links.add_short_link(link.as_str());
                            let reply = Msg::new(MsgType::ShortenLink, msg.id.clone())
                                .add_data_str(DataKey::Link, short);
                            proof {
                                assert(reply.get_spec(DataKey::Link) is Some);
                            }
                            Step::Reply(reply)
                        },
                        None => Step::Reply(
                            error_reply(MsgType::ErrorInvalidData, msg.id.clone()),
                        ),
                    }
                },
                MsgType::GetRegister => {
                    let id = alloc.get_register_id();
                    if id <= 0x7fff_ffff_ffff_ffff {
                        let reply = Msg::new(MsgType::GetRegister, msg.id.clone()).add_data_i64(
                            DataKey::UserId,
                            id as i64,
                        );
                        proof {
                            assert(reply.get_spec(DataKey::UserId) is Some);
                        }
                        Step::Reply(reply)
                    } else {
                        Step::Reply(error_reply(MsgType::ErrorInternal, msg.id.clone()))
                    }
                },
                MsgType::GetUserData => {
                    match msg.get_i64(DataKey::UserId) {
                        Some(uid) => {
                            let fallback = match msg.get_str(DataKey::Username) {
                                Some(n) => Some(UserKey::ByName(n.clone())),
                                None => None,
                            };
                            Step::NeedUserRecord {
                                key: UserKey::ById(uid),
                                fallback,
                                msg_id: msg.id.clone(),
                            }
                        },
                        None => {
                            match msg.get_str(DataKey::Username) {
                                Some(n) => Step::NeedUserRecord {
                                    key: UserKey::ByName(n.clone()),
                                    fallback: None,
                                    msg_id: msg.id.clone(),
                                },
                                None => Step::Reply(
                                    error_reply(MsgType::ErrorNotFound, msg.id.clone()),
                                ),
                            }
                        },
                    }
                },
                MsgType::GetIotaData => {
                    match msg.get_i64(DataKey::IotaId) {
                        Some(iid) => Step::NeedIotaRecord {
                            iota_id: iid,
                            user_id: None,
                            username: None,
                            msg_id: msg.id.clone(),
                        },
                        None => {
                            match msg.get_i64(DataKey::UserId) {
                                Some(uid) => {
                                    let fallback = match msg.get_str(DataKey::Username) {
                                        Some(n) => Some(UserKey::ByName(n.clone())),
                                        None => None,
                                    };
                                    Step::NeedUserForIota {
                                        key: UserKey::ById(uid),
                                        fallback,
                                        msg_id: msg.id.clone(),
                                    }
                                },
                                None => {
                                    match msg.get_str(DataKey::Username) {
                                        Some(n) => Step::NeedUserForIota {
                                            key: UserKey::ByName(n.clone()),
                                            fallback: None,
                                            msg_id: msg.id.clone(),
                                        },
                                        None => Step::Reply(
                                            error_reply(MsgType::ErrorNotFound, msg.id.clone()),
                                        ),
                                    }
                                },
                            }
                        },
                    }
                },
                MsgType::CompleteRegisterIota => {
                    match msg.get_str(DataKey::PublicKey) {
                        Some(pk) => {
                            match msg.get_i64(DataKey::IotaId) {
                                Some(iid) => Step::RepoWrite {
                                    op: RepoOp::RegisterIota {
                                        iota_id: iid,
                                        public_key: pk.clone(),
                                    },
                                    msg_id: msg.id.clone(),
                                },
                                None => Step::CreateIota {
                                    public_key: pk.clone(),
                                    msg_id: msg.id.clone(),
                                },
                            }
                        },
                        None => Step::Reply(
                            error_reply(MsgType::ErrorInvalidData, msg.id.clone()),
                        ),
                    }
                },
                MsgType::CompleteRegisterUser => {
                    match (
                        msg.get_i64(DataKey::UserId),
                        msg.get_str(DataKey::Username),
                        msg.get_str(DataKey::PublicKey),
                        msg.get_i64(DataKey::IotaId),
                        msg.get_str(DataKey::ResetToken),
                    ) {
                        (Some(uid), Some(un), Some(pk), Some(iid), Some(tok)) => Step::RepoWrite {
                            op: RepoOp::RegisterUser {
                                user_id: uid,
                                username: un.clone(),
                                public_key: pk.clone(),
                                iota_id: iid,
                                reset_token: tok.clone(),
                            },
                            msg_id: msg.id.clone(),
                        },
                        _ => Step::Reply(error_reply(MsgType::ErrorInvalidData, msg.id.clone())),
                    }
                },
                MsgType::ChangeUserData => {
                    match msg.get_i64(DataKey::UserId) {
                        Some(uid) => {
                            let (changes, trailing_error) = plan_user_changes(msg);
                            Step::ApplyUserChanges {
                                user_id: uid,
                                changes,
                                trailing_error,
                                msg_id: msg.id.clone(),
                            }
                        },
                        None => Step::Reply(
                            error_reply(MsgType::ErrorInvalidData, msg.id.clone()),
                        ),
                    }
                },
                MsgType::ChangeIotaData => {
                    match (
                        msg.get_i64(DataKey::UserId),
                        msg.get_i64(DataKey::IotaId),
                        msg.get_str(DataKey::ResetToken),
                        msg.get_str(DataKey::NewToken),
                    ) {
                        (Some(uid), Some(iid), Some(tok), Some(nt)) => {
                            Step::NeedUserForIotaChange {
                                user_id: uid,
                                iota_id: iid,
                                reset_token: tok.clone(),
                                new_token: nt.clone(),
                                msg_id: msg.id.clone(),
                            }
                        },
                        _ => Step::Reply(error_reply(MsgType::ErrorInvalidData, msg.id.clone())),
                    }
                },
                MsgType::DeleteUser => {
                    match msg.get_i64(DataKey::UserId) {
                        Some(uid) => Step::RepoWrite {
                            op: RepoOp::DeleteUser { user_id: uid },
                            msg_id: msg.id.clone(),
                        },
                        None => Step::Reply(
                            error_reply(MsgType::ErrorInvalidData, msg.id.clone()),
                        ),
                    }
                },
                MsgType::DeleteIota => {
                    match msg.get_i64(DataKey::IotaId) {
                        Some(iid) => Step::RepoWrite {
                            op: RepoOp::DeleteIota { iota_id: iid },
                            msg_id: msg.id.clone(),
                        },
                        None => Step::Reply(
                            error_reply(MsgType::ErrorInvalidData, msg.id.clone()),
                        ),
                    }
                },
                MsgType::GetNotifications => {
                    match msg.get_i64(DataKey::UserId) {
                        Some(uid) => Step::NeedNotifications {
                            user_id: uid,
                            msg_id: msg.id.clone(),
                        },
                        None => Step::Reply(
                            error_reply(MsgType::ErrorInvalidData, msg.id.clone()),
                        ),
                    }
                },
                MsgType::PushNotification => {
                    match (msg.get_i64(DataKey::ReceiverId), msg.get_i64(DataKey::SenderId)) {
                        (Some(rid), Some(sid)) => Step::RepoWrite {
                            op: RepoOp::PushNotification { receiver_id: rid, sender_id: sid },
                            msg_id: msg.id.clone(),
                        },
                        _ => Step::Reply(error_reply(MsgType::ErrorInvalidData, msg.id.clone())),
                    }
                },
                MsgType::ReadNotification => {
                    match (msg.get_i64(DataKey::ReceiverId), msg.get_i64(DataKey::SenderId)) {
                        (Some(rid), Some(sid)) => Step::RepoWrite {
                            op: RepoOp::ReadNotification { receiver_id: rid, sender_id: sid },
                            msg_id: msg.id.clone(),
                        },
                        _ => Step::Reply(error_reply(MsgType::ErrorInvalidData, msg.id.clone())),
                    }
                },
                _ => Step::Done,
            }
        },
    }
}

} // verus!

verus! {

/// The outcome reply of a repository write: plain success, or the error
/// with its description.
pub fn write_result_reply(msg_id: String, error: Option<String>) -> (r: Msg)
    ensures
        r.id == msg_id,
        error is None ==> r.mtype == MsgType::Success,
        error matches Some(e) ==> r.mtype == MsgType::Error && r.get_str_spec(DataKey::ErrorType)
            == Some(e@),
{
    match error {
        None => Msg::new(MsgType::Success, msg_id),
        Some(e) => {
            let m = Msg::new(MsgType::Error, msg_id).add_data_str(DataKey::ErrorType, e);
            proof {
                assert(m.get_spec(DataKey::ErrorType) is Some);
            }
            m
        },
    }
}

/// The reply to `complete_register_iota` without an id: the new iota's id,
/// or the error.
pub fn create_iota_reply(msg_id: String, outcome: Result<i64, String>) -> (r: Msg)
    ensures
        r.id == msg_id,
        outcome matches Ok(iid) ==> r.mtype == MsgType::CompleteRegisterIota && r.get_i64_spec(
            DataKey::IotaId,
        ) == Some(iid),
        outcome matches Err(e) ==> r.mtype == MsgType::Error && r.get_str_spec(DataKey::ErrorType)
            == Some(e@),
{
    match outcome {
        Ok(iid) => {
            let m = Msg::new(MsgType::CompleteRegisterIota, msg_id).add_data_i64(
                DataKey::IotaId,
                iid,
            );
            proof {
                assert(m.get_spec(DataKey::IotaId) is Some);
            }
            m
        },
        Err(e) => {
            let m = Msg::new(MsgType::Error, msg_id).add_data_str(DataKey::ErrorType, e);
            proof {
                assert(m.get_spec(DataKey::ErrorType) is Some);
            }
            m
        },
    }
}

/// The reply listing a user's notifications as (sender, amount) pairs.
pub fn notifications_reply(msg_id: String, list: Vec<(i64, i64)>) -> (r: Msg)
    ensures
        r.id == msg_id,
        r.mtype == MsgType::GetNotifications,
        r.get_spec(DataKey::Notifications) == Some(crate::msg::DataVal::Pairs(list)),
{
    let m = Msg::new(MsgType::GetNotifications, msg_id).add_data_pairs(DataKey::Notifications, list);
    proof {
        assert(m.get_spec(DataKey::Notifications) is Some);
    }
    m
}

/// Finishes `iota_connected` once the iota's users are known: each is
/// recorded as reachable-but-offline behind this omikron, and the user
/// list goes back to the announcing peer.
pub fn iota_connected_continue(
    presence: &mut PresenceIndex,
    omikron_id: i64,
    msg_id: String,
    user_ids: &Vec<i64>,
) -> (r: Step)
    requires
        old(presence).wf(),
    ensures
        final(presence).wf(),
        final(presence).iotas@ == old(presence).iotas@,
        forall|u: i64|
            user_ids@.contains(u) ==> #[trigger] final(presence).user_of(u) == Some(
                crate::presence::UserConnection {
                    connection_type: ConnectionType::UserOffline,
                    omikron_id,
                },
            ),
        forall|u: i64|
            !user_ids@.contains(u) ==> #[trigger] final(presence).user_of(u) == old(
                presence,
            ).user_of(u),
        r matches Step::Reply(m) && m.mtype == MsgType::IotaUserData && m.id@ == msg_id@
            && m.get_int_list_spec(DataKey::UserIds) == Some(user_ids@),
{
    crate::presence::mark_users_status(
        presence,
        user_ids,
        ConnectionType::UserOffline,
        omikron_id,
    );
    let ids_copy = crate::strutil::copy_vec_i64(user_ids);
    let m = Msg::new(MsgType::IotaUserData, msg_id).add_data_int_list(DataKey::UserIds, ids_copy);
    proof {
        assert(m.get_spec(DataKey::UserIds) is Some);
    }
    Step::Reply(m)
}

/// Builds the `get_user_data` reply: the stored record, augmented with
/// the live presence snapshot (online status, fronting omikron, and the
/// replica set of the user's home iota).
pub fn build_user_data_reply(presence: &PresenceIndex, msg_id: String, u: &UserRecord) -> (r: Msg)
    requires
        presence.wf(),
    ensures
        r.mtype == MsgType::GetUserData,
        r.id == msg_id,
        r.get_str_spec(DataKey::Username) == Some(u.username@),
        r.get_str_spec(DataKey::PublicKey) == Some(u.public_key@),
        r.get_i64_spec(DataKey::UserId) == Some(u.id),
        r.get_i64_spec(DataKey::IotaId) == Some(u.iota_id),
        r.get_i64_spec(DataKey::SubLevel) == Some(u.sub_level as i64),
        r.get_i64_spec(DataKey::SubEnd) == Some(u.sub_end),
        u.display matches Some(d) ==> r.get_str_spec(DataKey::Display) == Some(d@),
        u.status matches Some(d) ==> r.get_str_spec(DataKey::Status) == Some(d@),
        u.about matches Some(d) ==> r.get_str_spec(DataKey::About) == Some(d@),
        u.avatar matches Some(d) ==> r.get_str_spec(DataKey::Avatar) == Some(d@),
        r.get_int_list_spec(DataKey::OmikronConnections) == Some(presence.replicas_of(u.iota_id)),
        presence.user_of(u.id) matches Some(c) ==> (r.get_str_spec(DataKey::OnlineStatus) == Some(
            c.connection_type.spec_str(),
        ) && r.get_i64_spec(DataKey::OmikronId) == Some(c.omikron_id)),
        presence.user_of(u.id) is None ==> r.get_str_spec(DataKey::OnlineStatus) == Some(
            ConnectionType::IotaOffline.spec_str(),
        ),
{
    let mut m = Msg::new(MsgType::GetUserData, msg_id);
    m = m.add_data_str(DataKey::Username, u.username.clone());
    m = m.add_data_str(DataKey::PublicKey, u.public_key.clone());
    m = m.add_data_i64(DataKey::UserId, u.id);
    m = m.add_data_i64(DataKey::IotaId, u.iota_id);
    m = m.add_data_i64(DataKey::SubLevel, u.sub_level as i64);
    m = m.add_data_i64(DataKey::SubEnd, u.sub_end);
    match &u.display {
        Some(d) => {
            m = m.add_data_str(DataKey::Display, d.clone());
        },
        None => {},
    }
    match &u.status {
        Some(d) => {
            m = m.add_data_str(DataKey::Status, d.clone());
        },
        None => {},
    }
    match &u.about {
        Some(d) => {
            m = m.add_data_str(DataKey::About, d.clone());
        },
        None => {},
    }
    match &u.avatar {
        Some(d) => {
            m = m.add_data_str(DataKey::Avatar, d.clone());
        },
        None => {},
    }
    let connections = match presence.get_iota_omikron_connections(u.iota_id) {
        Some(v) => v,
        None => Vec::new(),
    };
    m = m.add_data_int_list(DataKey::OmikronConnections, connections);
    match presence.get_user_status(u.id) {
        Some(c) => {
            m = m.add_data_str(DataKey::OnlineStatus, c.connection_type.to_string());
            m = m.add_data_i64(DataKey::OmikronId, c.omikron_id);
        },
        None => {
            m = m.add_data_str(
                DataKey::OnlineStatus,
                ConnectionType::IotaOffline.to_string(),
            );
        },
    }
    proof {
        assert(m.get_spec(DataKey::Username) is Some);
        assert(m.get_spec(DataKey::PublicKey) is Some);
        assert(m.get_spec(DataKey::UserId) is Some);
        assert(m.get_spec(DataKey::IotaId) is Some);
        assert(m.get_spec(DataKey::SubLevel) is Some);
        assert(m.get_spec(DataKey::SubEnd) is Some);
        assert(m.get_spec(DataKey::OmikronConnections) is Some);
        assert(m.get_spec(DataKey::OnlineStatus) is Some);
        assert(u.display is Some ==> m.get_spec(DataKey::Display) is Some);
        assert(u.status is Some ==> m.get_spec(DataKey::Status) is Some);
        assert(u.about is Some ==> m.get_spec(DataKey::About) is Some);
        assert(u.avatar is Some ==> m.get_spec(DataKey::Avatar) is Some);
    }
    m
}

/// Continues `get_user_data` after a repository lookup: found records are
/// answered, a miss falls back to the second key when one was given, and
/// otherwise the peer learns nothing was found.
pub fn get_user_data_continue(
    presence: &PresenceIndex,
    msg_id: String,
    result: Option<&UserRecord>,
    fallback: Option<UserKey>,
) -> (r: Step)
    requires
        presence.wf(),
    ensures
        step_echoes(r, msg_id@),
        result matches Some(u) ==> (r matches Step::Reply(m) && m.mtype == MsgType::GetUserData
            && m.id@ == msg_id@ && m.get_str_spec(DataKey::Username) == Some(u.username@)),
        (result is None && fallback is Some) ==> (r matches Step::NeedUserRecord {
            key,
            fallback: fb2,
            msg_id: mid,
        } && key == fallback.unwrap() && fb2 is None && mid@ == msg_id@),
        (result is None && fallback is None) ==> replies_error(r, MsgType::ErrorNotFound, msg_id@),
{
    match result {
        Some(u) => Step::Reply(build_user_data_reply(presence, msg_id, u)),
        None => {
            match fallback {
                Some(k) => Step::NeedUserRecord { key: k, fallback: None, msg_id },
                None => Step::Reply(error_reply(MsgType::ErrorNotFound, msg_id)),
            }
        },
    }
}

/// Builds the `get_iota_data` reply: the stored iota record with the live
/// replica list, echoing the user id or username the query came through.
pub fn build_iota_data_reply(
    presence: &PresenceIndex,
    msg_id: String,
    iota: &IotaRecord,
    user_id: Option<i64>,
    username: Option<String>,
) -> (r: Msg)
    requires
        presence.wf(),
    ensures
        r.mtype == MsgType::GetIotaData,
        r.id == msg_id,
        r.get_str_spec(DataKey::PublicKey) == Some(iota.public_key@),
        r.get_i64_spec(DataKey::IotaId) == Some(iota.id),
        user_id matches Some(uid) ==> r.get_i64_spec(DataKey::UserId) == Some(uid),
        username matches Some(n) ==> r.get_str_spec(DataKey::Username) == Some(n@),
        r.get_int_list_spec(DataKey::OmikronConnections) == Some(presence.replicas_of(iota.id)),
{
    let mut m = Msg::new(MsgType::GetIotaData, msg_id);
    m = m.add_data_str(DataKey::PublicKey, iota.public_key.clone());
    match user_id {
        Some(uid) => {
            m = m.add_data_i64(DataKey::UserId, uid);
        },
        None => {},
    }
    match username {
        Some(n) => {
            m = m.add_data_str(DataKey::Username, n);
        },
        None => {},
    }
    m = m.add_data_i64(DataKey::IotaId, iota.id);
    let connections = match presence.get_iota_omikron_connections(iota.id) {
        Some(v) => v,
        None => Vec::new(),
    };
    m = m.add_data_int_list(DataKey::OmikronConnections, connections);
    proof {
        assert(m.get_spec(DataKey::PublicKey) is Some);
        assert(m.get_spec(DataKey::IotaId) is Some);
        assert(m.get_spec(DataKey::OmikronConnections) is Some);
        assert(user_id is Some ==> m.get_spec(DataKey::UserId) is Some);
        assert(username is Some ==> m.get_spec(DataKey::Username) is Some);
    }
    m
}

/// Continues `get_iota_data` after the user lookup of the cascade: a hit
/// turns into the iota lookup for the user's home iota, a miss falls back
/// or reports not found.
pub fn get_iota_data_user_continue(
    msg_id: String,
    result: Option<&UserRecord>,
    fallback: Option<UserKey>,
) -> (r: Step)
    ensures
        step_echoes(r, msg_id@),
        result matches Some(u) ==> (r matches Step::NeedIotaRecord {
            iota_id,
            user_id,
            username,
            msg_id: mid,
        } && iota_id == u.iota_id && user_id == Some(u.id) && (match username {
            Some(n) => n@ == u.username@,
            None => false,
        }) && mid@ == msg_id@),
        (result is None && fallback is Some) ==> (r matches Step::NeedUserForIota {
            key,
            fallback: fb2,
            msg_id: mid,
        } && key == fallback.unwrap() && fb2 is None && mid@ == msg_id@),
        (result is None && fallback is None) ==> replies_error(r, MsgType::ErrorNotFound, msg_id@),
{
    match result {
        Some(u) => Step::NeedIotaRecord {
            iota_id: u.iota_id,
            user_id: Some(u.id),
            username: Some(u.username.clone()),
            msg_id,
        },
        None => {
            match fallback {
                Some(k) => Step::NeedUserForIota { key: k, fallback: None, msg_id },
                None => Step::Reply(error_reply(MsgType::ErrorNotFound, msg_id)),
            }
        },
    }
}

/// Continues `get_iota_data` once the iota record is in hand.
pub fn get_iota_data_continue(
    presence: &PresenceIndex,
    msg_id: String,
    result: Option<&IotaRecord>,
    user_id: Option<i64>,
    username: Option<String>,
) -> (r: Step)
    requires
        presence.wf(),
    ensures
        step_echoes(r, msg_id@),
        result matches Some(iota) ==> (r matches Step::Reply(m) && m.mtype == MsgType::GetIotaData
            && m.id@ == msg_id@ && m.get_i64_spec(DataKey::IotaId) == Some(iota.id)
            && m.get_int_list_spec(DataKey::OmikronConnections) == Some(
            presence.replicas_of(iota.id),
        )),
        result is None ==> replies_error(r, MsgType::ErrorNotFound, msg_id@),
{
    match result {
        Some(iota) => Step::Reply(
            build_iota_data_reply(presence, msg_id, iota, user_id, username),
        ),
        None => Step::Reply(error_reply(MsgType::ErrorNotFound, msg_id)),
    }
}

/// Continues `change_iota_data` once the user record is in hand: the
/// stored reset token must match the presented one; only then are the
/// home-iota change and the token rotation applied.
pub fn change_iota_continue(
    msg_id: String,
    result: Option<&UserRecord>,
    iota_id: i64,
    reset_token: &str,
    new_token: String,
) -> (r: Step)
    ensures
        step_echoes(r, msg_id@),
        result is None ==> replies_error(r, MsgType::ErrorNotFound, msg_id@),
        result matches Some(u) ==> {
            &&& u.reset_token@ == reset_token@ ==> (r matches Step::RepoWrite { op, msg_id: mid }
                && op matches RepoOp::ChangeIota { user_id, iota_id: iid, new_token: nt }
                && user_id == u.id && iid == iota_id && nt@ == new_token@ && mid@ == msg_id@)
            &&& u.reset_token@ != reset_token@ ==> replies_error(
                r,
                MsgType::ErrorInvalidChallenge,
                msg_id@,
            )
        },
{
    match result {
        Some(u) => {
            if string_eq(&u.reset_token, reset_token) {
                Step::RepoWrite {
                    op: RepoOp::ChangeIota { user_id: u.id, iota_id, new_token },
                    msg_id,
                }
            } else {
                Step::Reply(error_reply(MsgType::ErrorInvalidChallenge, msg_id))
            }
        },
        None => Step::Reply(error_reply(MsgType::ErrorNotFound, msg_id)),
    }
}

} // verus!
