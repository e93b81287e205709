//! The control-channel message model: one frame is a request id, a message
//! type out of a closed set, and a bag of keyed data values.  The transport
//! carries frames as JSON text; this module owns the schema on top of it.

use vstd::prelude::*;

verus! {

/// The closed set of message types on the wire.
#[derive(Clone, Copy, Debug, PartialEq, Eq, Structural)]
pub enum MsgType {
    Identification,
    Challenge,
    ChallengeResponse,
    IdentificationResponse,
    Ping,
    Pong,
    Success,
    Error,
    ErrorNotFound,
    ErrorNotAuthenticated,
    ErrorInvalidOmikronId,
    ErrorInvalidPublicKey,
    ErrorInvalidChallenge,
    ErrorInvalidData,
    ErrorBadRequest,
    ErrorInternal,
    ShortenLink,
    GetRegister,
    CompleteRegisterIota,
    CompleteRegisterUser,
    ChangeUserData,
    ChangeIotaData,
    DeleteUser,
    DeleteIota,
    UserConnected,
    UserDisconnected,
    IotaConnected,
    IotaDisconnected,
    IotaUserData,
    SyncClientIotaStatus,
    GetUserData,
    GetIotaData,
    GetNotifications,
    PushNotification,
    ReadNotification,
    /// A type name outside the closed set; such frames are ignored.
    Unknown,
}

/// The keys a frame's data object may carry.
#[derive(Clone, Copy, Debug, PartialEq, Eq, Structural)]
pub enum DataKey {
    UserId,
    IotaId,
    Omikron,
    OmikronId,
    OmikronConnections,
    Username,
    Display,
    Status,
    About,
    Avatar,
    PublicKey,
    PrivateKeyHash,
    Challenge,
    SubLevel,
    SubEnd,
    UserIds,
    IotaIds,
    Accepted,
    AcceptedIds,
    Link,
    OnlineStatus,
    ResetToken,
    NewToken,
    ErrorType,
    Notifications,
    SenderId,
    ReceiverId,
    Amount,
    LastPing,
}

/// A data value: the JSON shapes the protocol actually uses.
#[derive(Debug)]
pub enum DataVal {
    Int(i64),
    Str(String),
    Bool(bool),
    IntList(Vec<i64>),
    /// Pairs of (sender id, amount), as carried by notification lists.
    Pairs(Vec<(i64, i64)>),
}

/// One frame of the control channel.
#[derive(Debug)]
pub struct Msg {
    pub id: String,
    pub mtype: MsgType,
    pub data: Vec<(DataKey, DataVal)>,
}

/// The value stored under `k`, later entries overriding earlier ones, as a
/// JSON object's repeated keys do.
pub open spec fn spec_get(data: Seq<(DataKey, DataVal)>, k: DataKey) -> Option<DataVal>
    decreases data.len(),
{
    if data.len() == 0 {
        None
    } else if data.last().0 == k {
        Some(data.last().1)
    } else {
        spec_get(data.drop_last(), k)
    }
}

/// Appending a pair changes exactly that key's value.
pub proof fn lemma_get_push(data: Seq<(DataKey, DataVal)>, p: (DataKey, DataVal), k: DataKey)
    ensures
        spec_get(data.push(p), k) == if p.0 == k {
            Some(p.1)
        } else {
            spec_get(data, k)
        },
{
    assert(data.push(p).drop_last() == data);
    assert(data.push(p).last() == p);
}

impl Msg {
    pub open spec fn get_spec(self, k: DataKey) -> Option<DataVal> {
        spec_get(self.data@, k)
    }

    pub open spec fn get_i64_spec(self, k: DataKey) -> Option<i64> {
        match self.get_spec(k) {
            Some(DataVal::Int(v)) => Some(v),
            _ => None,
        }
    }

    pub open spec fn get_str_spec(self, k: DataKey) -> Option<Seq<char>> {
        match self.get_spec(k) {
            Some(DataVal::Str(s)) => Some(s@),
            _ => None,
        }
    }

    pub open spec fn get_bool_spec(self, k: DataKey) -> Option<bool> {
        match spec_get(self.data@, k) {
            Some(DataVal::Bool(b)) => Some(b),
            _ => None,
        }
    }

    pub open spec fn get_int_list_spec(self, k: DataKey) -> Option<Seq<i64>> {
        match self.get_spec(k) {
            Some(DataVal::IntList(v)) => Some(v@),
            _ => None,
        }
    }

    pub fn new(mtype: MsgType, id: String) -> (r: Msg)
        ensures
            r.mtype == mtype,
            r.id == id,
            r.data@ == Seq::<(DataKey, DataVal)>::empty(),
            forall|k: DataKey| #[trigger] r.get_spec(k) is None,
    {
        let m = Msg { id, mtype, data: Vec::new() };
        proof {
            assert forall|k: DataKey| #[trigger] m.get_spec(k) is None by {}
        }
        m
    }

    fn push_pair(self, k: DataKey, v: DataVal) -> (r: Msg)
        ensures
            r.mtype == self.mtype,
            r.id == self.id,
            r.data@ == self.data@.push((k, v)),
            forall|k2: DataKey|
                #[trigger] r.get_spec(k2) == if k2 == k {
                    Some(v)
                } else {
                    self.get_spec(k2)
                },
    {
        let ghost d0 = self.data@;
        let mut m = self;
        m.data.push((k, v));
        proof {
            assert forall|k2: DataKey| #[trigger] m.get_spec(k2) == (if k2 == k {
                Some(v)
            } else {
                spec_get(d0, k2)
            }) by {
                lemma_get_push(d0, (k, v), k2);
            }
        }
        m
    }

    pub fn add_data_i64(self, k: DataKey, v: i64) -> (r: Msg)
        ensures
            r.mtype == self.mtype,
            r.id == self.id,
            r.data@ == self.data@.push((k, DataVal::Int(v))),
            forall|k2: DataKey|
                #[trigger] r.get_spec(k2) == if k2 == k {
                    Some(DataVal::Int(v))
                } else {
                    self.get_spec(k2)
                },
    {
        self.push_pair(k, DataVal::Int(v))
    }

    pub fn add_data_str(self, k: DataKey, v: String) -> (r: Msg)
        ensures
            r.mtype == self.mtype,
            r.id == self.id,
            r.data@ == self.data@.push((k, DataVal::Str(v))),
            forall|k2: DataKey|
                #[trigger] r.get_spec(k2) == if k2 == k {
                    Some(DataVal::Str(v))
                } else {
                    self.get_spec(k2)
                },
    {
        self.push_pair(k, DataVal::Str(v))
    }

    pub fn add_data_bool(self, k: DataKey, v: bool) -> (r: Msg)
        ensures
            r.mtype == self.mtype,
            r.id == self.id,
            r.data@ == self.data@.push((k, DataVal::Bool(v))),
            forall|k2: DataKey|
                #[trigger] r.get_spec(k2) == if k2 == k {
                    Some(DataVal::Bool(v))
                } else {
                    self.get_spec(k2)
                },
    {
        self.push_pair(k, DataVal::Bool(v))
    }

    pub fn add_data_int_list(self, k: DataKey, v: Vec<i64>) -> (r: Msg)
        ensures
            r.mtype == self.mtype,
            r.id == self.id,
            r.data@ == self.data@.push((k, DataVal::IntList(v))),
            forall|k2: DataKey|
                #[trigger] r.get_spec(k2) == if k2 == k {
                    Some(DataVal::IntList(v))
                } else {
                    self.get_spec(k2)
                },
    {
        self.push_pair(k, DataVal::IntList(v))
    }

    pub fn add_data_pairs(self, k: DataKey, v: Vec<(i64, i64)>) -> (r: Msg)
        ensures
            r.mtype == self.mtype,
            r.id == self.id,
            r.data@ == self.data@.push((k, DataVal::Pairs(v))),
            forall|k2: DataKey|
                #[trigger] r.get_spec(k2) == if k2 == k {
                    Some(DataVal::Pairs(v))
                } else {
                    self.get_spec(k2)
                },
    {
        self.push_pair(k, DataVal::Pairs(v))
    }

    pub fn is_type(&self, t: MsgType) -> (r: bool)
        ensures
            r == (self.mtype == t),
    {
        self.mtype == t
    }

    /// The integer stored under `k`, if one is.
    pub fn get_i64(&self, k: DataKey) -> (r: Option<i64>)
        ensures
            r == self.get_i64_spec(k),
    {
        match self.find(k) {
            Some(i) => match &self.data[i].1 {
                DataVal::Int(v) => Some(*v),
                _ => None,
            },
            None => None,
        }
    }

    /// The string stored under `k`, if one is.
    pub fn get_str(&self, k: DataKey) -> (r: Option<&String>)
        ensures
            match r {
                Some(s) => self.get_str_spec(k) == Some(s@) && spec_get(self.data@, k) == Some(
                    DataVal::Str(*s),
                ),
                None => self.get_str_spec(k) is None,
            },
    {
        match self.find(k) {
            Some(i) => match &self.data[i].1 {
                DataVal::Str(s) => Some(s),
                _ => None,
            },
            None => None,
        }
    }

    /// The boolean stored under `k`, if one is.
    pub fn get_bool(&self, k: DataKey) -> (r: Option<bool>)
        ensures
            r == self.get_bool_spec(k),
    {
        match self.find(k) {
            Some(i) => match &self.data[i].1 {
                DataVal::Bool(b) => Some(*b),
                _ => None,
            },
            None => None,
        }
    }

    /// The integer list stored under `k`, if one is.
    pub fn get_int_list(&self, k: DataKey) -> (r: Option<&Vec<i64>>)
        ensures
            match r {
                Some(v) => self.get_int_list_spec(k) == Some(v@) && spec_get(self.data@, k)
                    == Some(DataVal::IntList(*v)),
                None => self.get_int_list_spec(k) is None,
            },
    {
        match self.find(k) {
            Some(i) => match &self.data[i].1 {
                DataVal::IntList(v) => Some(v),
                _ => None,
            },
            None => None,
        }
    }

    /// The index of the pair `spec_get` denotes, scanning from the end.
    fn find(&self, k: DataKey) -> (r: Option<usize>)
        ensures
            match r {
                Some(i) => i < self.data@.len() && self.data@[i as int].0 == k && spec_get(
                    self.data@,
                    k,
                ) == Some(self.data@[i as int].1),
                None => spec_get(self.data@, k) is None,
            },
    {
        let n = self.data.len();
        proof {
            assert(self.data@.take(n as int) == self.data@);
        }
        let mut i: usize = n;
        while i > 0
            invariant
                n == self.data@.len(),
                i <= n,
                spec_get(self.data@, k) == spec_get(self.data@.take(i as int), k),
            decreases i,
        {
            i = i - 1;
            proof {
                let t1 = self.data@.take(i + 1);
                assert(t1.drop_last() == self.data@.take(i as int));
                assert(t1.last() == self.data@[i as int]);
            }
            if self.data[i].0 == k {
                proof {
                    let t1 = self.data@.take(i + 1);
                    assert(t1.len() == i + 1);
                    assert(t1.last() == self.data@[i as int]);
                    assert(t1.last().0 == k);
                    assert(spec_get(t1, k) == Some(self.data@[i as int].1));
                }
                return Some(i);
            }
        }
        proof {
            assert(self.data@.take(0) == Seq::<(DataKey, DataVal)>::empty());
        }
        None
    }
}

} // verus!

verus! {

/// The wire name of a message type (the unknown placeholder has none and
/// is never sent).
pub open spec fn spec_type_str(t: MsgType) -> Seq<char> {
    match t {
        MsgType::Identification => "identification"@,
        MsgType::Challenge => "challenge"@,
        MsgType::ChallengeResponse => "challenge_response"@,
        MsgType::IdentificationResponse => "identification_response"@,
        MsgType::Ping => "ping"@,
        MsgType::Pong => "pong"@,
        MsgType::Success => "success"@,
        MsgType::Error => "error"@,
        MsgType::ErrorNotFound => "error_not_found"@,
        MsgType::ErrorNotAuthenticated => "error_not_authenticated"@,
        MsgType::ErrorInvalidOmikronId => "error_invalid_omikron_id"@,
        MsgType::ErrorInvalidPublicKey => "error_invalid_public_key"@,
        MsgType::ErrorInvalidChallenge => "error_invalid_challenge"@,
        MsgType::ErrorInvalidData => "error_invalid_data"@,
        MsgType::ErrorBadRequest => "error_bad_request"@,
        MsgType::ErrorInternal => "error_internal"@,
        MsgType::ShortenLink => "shorten_link"@,
        MsgType::GetRegister => "get_register"@,
        MsgType::CompleteRegisterIota => "complete_register_iota"@,
        MsgType::CompleteRegisterUser => "complete_register_user"@,
        MsgType::ChangeUserData => "change_user_data"@,
        MsgType::ChangeIotaData => "change_iota_data"@,
        MsgType::DeleteUser => "delete_user"@,
        MsgType::DeleteIota => "delete_iota"@,
        MsgType::UserConnected => "user_connected"@,
        MsgType::UserDisconnected => "user_disconnected"@,
        MsgType::IotaConnected => "iota_connected"@,
        MsgType::IotaDisconnected => "iota_disconnected"@,
        MsgType::IotaUserData => "iota_user_data"@,
        MsgType::SyncClientIotaStatus => "sync_client_iota_status"@,
        MsgType::GetUserData => "get_user_data"@,
        MsgType::GetIotaData => "get_iota_data"@,
        MsgType::GetNotifications => "get_notifications"@,
        MsgType::PushNotification => "push_notification"@,
        MsgType::ReadNotification => "read_notification"@,
        MsgType::Unknown => "unknown"@,
    }
}

/// Which message type a wire name denotes; names outside the closed set
/// map to the ignored placeholder.
pub open spec fn spec_type_from_str(s: Seq<char>) -> MsgType {
    if s == "identification"@ {
        MsgType::Identification
    } else if s == "challenge"@ {
        MsgType::Challenge
    } else if s == "challenge_response"@ {
        MsgType::ChallengeResponse
    } else if s == "identification_response"@ {
        MsgType::IdentificationResponse
    } else if s == "ping"@ {
        MsgType::Ping
    } else if s == "pong"@ {
        MsgType::Pong
    } else if s == "success"@ {
        MsgType::Success
    } else if s == "error"@ {
        MsgType::Error
    } else if s == "error_not_found"@ {
        MsgType::ErrorNotFound
    } else if s == "error_not_authenticated"@ {
        MsgType::ErrorNotAuthenticated
    } else if s == "error_invalid_omikron_id"@ {
        MsgType::ErrorInvalidOmikronId
    } else if s == "error_invalid_public_key"@ {
        MsgType::ErrorInvalidPublicKey
    } else if s == "error_invalid_challenge"@ {
        MsgType::ErrorInvalidChallenge
    } else if s == "error_invalid_data"@ {
        MsgType::ErrorInvalidData
    } else if s == "error_bad_request"@ {
        MsgType::ErrorBadRequest
    } else if s == "error_internal"@ {
        MsgType::ErrorInternal
    } else if s == "shorten_link"@ {
        MsgType::ShortenLink
    } else if s == "get_register"@ {
        MsgType::GetRegister
    } else if s == "complete_register_iota"@ {
        MsgType::CompleteRegisterIota
    } else if s == "complete_register_user"@ {
        MsgType::CompleteRegisterUser
    } else if s == "change_user_data"@ {
        MsgType::ChangeUserData
    } else if s == "change_iota_data"@ {
        MsgType::ChangeIotaData
    } else if s == "delete_user"@ {
        MsgType::DeleteUser
    } else if s == "delete_iota"@ {
        MsgType::DeleteIota
    } else if s == "user_connected"@ {
        MsgType::UserConnected
    } else if s == "user_disconnected"@ {
        MsgType::UserDisconnected
    } else if s == "iota_connected"@ {
        MsgType::IotaConnected
    } else if s == "iota_disconnected"@ {
        MsgType::IotaDisconnected
    } else if s == "iota_user_data"@ {
        MsgType::IotaUserData
    } else if s == "sync_client_iota_status"@ {
        MsgType::SyncClientIotaStatus
    } else if s == "get_user_data"@ {
        MsgType::GetUserData
    } else if s == "get_iota_data"@ {
        MsgType::GetIotaData
    } else if s == "get_notifications"@ {
        MsgType::GetNotifications
    } else if s == "push_notification"@ {
        MsgType::PushNotification
    } else if s == "read_notification"@ {
        MsgType::ReadNotification
    } else {
        MsgType::Unknown
    }
}

/// The wire name of a message type.
pub fn type_to_str(t: MsgType) -> (r: &'static str)
    ensures
        r@ == spec_type_str(t),
{
    match t {
        MsgType::Identification => "identification",
        MsgType::Challenge => "challenge",
        MsgType::ChallengeResponse => "challenge_response",
        MsgType::IdentificationResponse => "identification_response",
        MsgType::Ping => "ping",
        MsgType::Pong => "pong",
        MsgType::Success => "success",
        MsgType::Error => "error",
        MsgType::ErrorNotFound => "error_not_found",
        MsgType::ErrorNotAuthenticated => "error_not_authenticated",
        MsgType::ErrorInvalidOmikronId => "error_invalid_omikron_id",
        MsgType::ErrorInvalidPublicKey => "error_invalid_public_key",
        MsgType::ErrorInvalidChallenge => "error_invalid_challenge",
        MsgType::ErrorInvalidData => "error_invalid_data",
        MsgType::ErrorBadRequest => "error_bad_request",
        MsgType::ErrorInternal => "error_internal",
        MsgType::ShortenLink => "shorten_link",
        MsgType::GetRegister => "get_register",
        MsgType::CompleteRegisterIota => "complete_register_iota",
        MsgType::CompleteRegisterUser => "complete_register_user",
        MsgType::ChangeUserData => "change_user_data",
        MsgType::ChangeIotaData => "change_iota_data",
        MsgType::DeleteUser => "delete_user",
        MsgType::DeleteIota => "delete_iota",
        MsgType::UserConnected => "user_connected",
        MsgType::UserDisconnected => "user_disconnected",
        MsgType::IotaConnected => "iota_connected",
        MsgType::IotaDisconnected => "iota_disconnected",
        MsgType::IotaUserData => "iota_user_data",
        MsgType::SyncClientIotaStatus => "sync_client_iota_status",
        MsgType::GetUserData => "get_user_data",
        MsgType::GetIotaData => "get_iota_data",
        MsgType::GetNotifications => "get_notifications",
        MsgType::PushNotification => "push_notification",
        MsgType::ReadNotification => "read_notification",
        MsgType::Unknown => "unknown",
    }
}

/// Parses a wire name into the closed message type set.
pub fn type_from_str(s: &String) -> (r: MsgType)
    ensures
        r == spec_type_from_str(s@),
{
    if crate::strutil::string_eq(s, "identification") {
        MsgType::Identification
    } else if crate::strutil::string_eq(s, "challenge") {
        MsgType::Challenge
    } else if crate::strutil::string_eq(s, "challenge_response") {
        MsgType::ChallengeResponse
    } else if crate::strutil::string_eq(s, "identification_response") {
        MsgType::IdentificationResponse
    } else if crate::strutil::string_eq(s, "ping") {
        MsgType::Ping
    } else if crate::strutil::string_eq(s, "pong") {
        MsgType::Pong
    } else if crate::strutil::string_eq(s, "success") {
        MsgType::Success
    } else if crate::strutil::string_eq(s, "error") {
        MsgType::Error
    } else if crate::strutil::string_eq(s, "error_not_found") {
        MsgType::ErrorNotFound
    } else if crate::strutil::string_eq(s, "error_not_authenticated") {
        MsgType::ErrorNotAuthenticated
    } else if crate::strutil::string_eq(s, "error_invalid_omikron_id") {
        MsgType::ErrorInvalidOmikronId
    } else if crate::strutil::string_eq(s, "error_invalid_public_key") {
        MsgType::ErrorInvalidPublicKey
    } else if crate::strutil::string_eq(s, "error_invalid_challenge") {
        MsgType::ErrorInvalidChallenge
    } else if crate::strutil::string_eq(s, "error_invalid_data") {
        MsgType::ErrorInvalidData
    } else if crate::strutil::string_eq(s, "error_bad_request") {
        MsgType::ErrorBadRequest
    } else if crate::strutil::string_eq(s, "error_internal") {
        MsgType::ErrorInternal
    } else if crate::strutil::string_eq(s, "shorten_link") {
        MsgType::ShortenLink
    } else if crate::strutil::string_eq(s, "get_register") {
        MsgType::GetRegister
    } else if crate::strutil::string_eq(s, "complete_register_iota") {
        MsgType::CompleteRegisterIota
    } else if crate::strutil::string_eq(s, "complete_register_user") {
        MsgType::CompleteRegisterUser
    } else if crate::strutil::string_eq(s, "change_user_data") {
        MsgType::ChangeUserData
    } else if crate::strutil::string_eq(s, "change_iota_data") {
        MsgType::ChangeIotaData
    } else if crate::strutil::string_eq(s, "delete_user") {
        MsgType::DeleteUser
    } else if crate::strutil::string_eq(s, "delete_iota") {
        MsgType::DeleteIota
    } else if crate::strutil::string_eq(s, "user_connected") {
        MsgType::UserConnected
    } else if crate::strutil::string_eq(s, "user_disconnected") {
        MsgType::UserDisconnected
    } else if crate::strutil::string_eq(s, "iota_connected") {
        MsgType::IotaConnected
    } else if crate::strutil::string_eq(s, "iota_disconnected") {
        MsgType::IotaDisconnected
    } else if crate::strutil::string_eq(s, "iota_user_data") {
        MsgType::IotaUserData
    } else if crate::strutil::string_eq(s, "sync_client_iota_status") {
        MsgType::SyncClientIotaStatus
    } else if crate::strutil::string_eq(s, "get_user_data") {
        MsgType::GetUserData
    } else if crate::strutil::string_eq(s, "get_iota_data") {
        MsgType::GetIotaData
    } else if crate::strutil::string_eq(s, "get_notifications") {
        MsgType::GetNotifications
    } else if crate::strutil::string_eq(s, "push_notification") {
        MsgType::PushNotification
    } else if crate::strutil::string_eq(s, "read_notification") {
        MsgType::ReadNotification
    } else {
        MsgType::Unknown
    }
}

} // verus!
