//! Protocol values: requests, responses, heartbeats, error codes and the
//! closed set of commands.

use vstd::prelude::*;

verus! {

broadcast use vstd::string::group_string_axioms;

/// Numeric error codes carried by error responses.
pub const MALFORMED_JSON: u32 = 1001;
pub const UNKNOWN_COMMAND: u32 = 1002;
pub const MISSING_FIELD: u32 = 1003;
pub const INVALID_FORMAT: u32 = 1004;
pub const AUTH_FAILED: u32 = 2001;
pub const AUTH_REQUIRED: u32 = 2002;
pub const SESSION_NOT_FOUND: u32 = 2003;
pub const SESSION_EXPIRED: u32 = 2004;
pub const INVALID_TOKEN: u32 = 2005;
pub const MAIL_NOT_FOUND: u32 = 3001;
pub const MAILBOX_NOT_FOUND: u32 = 3002;
pub const RECIPIENT_NOT_FOUND: u32 = 3003;
pub const MAIL_TOO_LARGE: u32 = 3004;
pub const INTERNAL_ERROR: u32 = 5000;
pub const SERVICE_UNAVAILABLE: u32 = 5001;

/// A structured payload. Numbers that fit `i64` are `Int`; any other number
/// keeps its literal text.
#[derive(Debug)]
pub enum JsonValue {
    Null,
    Bool(bool),
    Int(i64),
    Number(String),
    Text(String),
    Array(Vec<JsonValue>),
    Object(Vec<(String, JsonValue)>),
}

/// The value under the first field named `key`.
pub open spec fn lookup(fields: Seq<(String, JsonValue)>, key: Seq<char>) -> Option<JsonValue>
    decreases fields.len(),
{
    if fields.len() == 0 {
        None
    } else if fields[0].0@ == key {
        Some(fields[0].1)
    } else {
        lookup(fields.drop_first(), key)
    }
}

/// The field `key` of `v`, when `v` is an object that has one.
pub open spec fn field_of(v: Option<JsonValue>, key: Seq<char>) -> Option<JsonValue> {
    match v {
        Some(JsonValue::Object(fields)) => lookup(fields@, key),
        _ => None,
    }
}

pub open spec fn text_of(v: Option<JsonValue>) -> Option<Seq<char>> {
    match v {
        Some(JsonValue::Text(s)) => Some(s@),
        _ => None,
    }
}

pub open spec fn int_of(v: Option<JsonValue>) -> Option<i64> {
    match v {
        Some(JsonValue::Int(n)) => Some(n),
        _ => None,
    }
}

pub open spec fn bool_of(v: Option<JsonValue>) -> Option<bool> {
    match v {
        Some(JsonValue::Bool(b)) => Some(b),
        _ => None,
    }
}

fn find_field<'a>(v: &'a JsonValue, key: &str) -> (r: Option<&'a JsonValue>)
    ensures
        match r {
            Some(x) => field_of(Some(*v), key@) == Some(*x),
            None => field_of(Some(*v), key@) is None,
        },
{
    match v {
        JsonValue::Object(fields) => {
            let want = key.to_string();
            let mut i: usize = 0;
            assert(fields@.subrange(0, fields@.len() as int) == fields@);
            while i < fields.len()
                invariant
                    want@ == key@,
                    field_of(Some(*v), key@) == lookup(fields@, key@),
                    i <= fields@.len(),
                    lookup(fields@, key@) == lookup(fields@.subrange(i as int, fields@.len() as int), key@),
                decreases fields@.len() - i,
            {
                let ghost rest = fields@.subrange(i as int, fields@.len() as int);
                assert(rest.drop_first() == fields@.subrange(i + 1, fields@.len() as int));
                if fields[i].0 == want {
                    assert(rest[0] == fields@[i as int]);
                    assert(rest[0].0@ == key@);
                    assert(lookup(rest, key@) == Some(rest[0].1));
                    let found = &fields[i].1;
                    assert(*found == fields@[i as int].1);
                    return Some(found);
                }
                i = i + 1;
            }
            assert(fields@.subrange(i as int, fields@.len() as int).len() == 0);
            None
        },
        _ => None,
    }
}

fn text_in(v: Option<&JsonValue>) -> (r: Option<String>)
    ensures
        opt_text(r) == text_of(
            match v {
                Some(x) => Some(*x),
                None => None,
            },
        ),
{
    match v {
        Some(JsonValue::Text(s)) => Some(s.clone()),
        _ => None,
    }
}

pub open spec fn opt_text(o: Option<String>) -> Option<Seq<char>> {
    match o {
        Some(s) => Some(s@),
        None => None,
    }
}

/// An incoming request: a command name and an optional payload.
#[derive(Debug)]
pub struct Request {
    pub cmd: String,
    pub data: Option<JsonValue>,
}

impl Request {
    /// The text field `key` of the payload.
    pub fn get_str(&self, key: &str) -> (r: Option<String>)
        ensures
            opt_text(r) == text_of(field_of(self.data, key@)),
    {
        match &self.data {
            Some(d) => text_in(find_field(d, key)),
            None => None,
        }
    }

    /// The text field `key2` of the object under `key1` of the payload.
    pub fn get_nested_str(&self, key1: &str, key2: &str) -> (r: Option<String>)
        ensures
            opt_text(r) == text_of(field_of(field_of(self.data, key1@), key2@)),
    {
        match &self.data {
            Some(d) => match find_field(d, key1) {
                Some(inner) => text_in(find_field(inner, key2)),
                None => None,
            },
            None => None,
        }
    }

    /// The integer field `key` of the payload.
    pub fn get_int(&self, key: &str) -> (r: Option<i64>)
        ensures
            r == int_of(field_of(self.data, key@)),
    {
        match &self.data {
            Some(d) => match find_field(d, key) {
                Some(JsonValue::Int(n)) => Some(*n),
                _ => None,
            },
            None => None,
        }
    }

    /// The boolean field `key` of the payload.
    pub fn get_bool(&self, key: &str) -> (r: Option<bool>)
        ensures
            r == bool_of(field_of(self.data, key@)),
    {
        match &self.data {
            Some(d) => match find_field(d, key) {
                Some(JsonValue::Bool(b)) => Some(*b),
                _ => None,
            },
            None => None,
        }
    }
}

/// Every command of the protocol, and `Unknown` for any other name.
#[derive(Debug, Clone, Copy, PartialEq, Eq, Structural)]
pub enum Command {
    Init,
    Auth,
    Resume,
    Logout,
    SessionInfo,
    SessionList,
    SessionKill,
    SessionSuspend,
    SessionResumeSuspended,
    ConnectionList,
    Ping,
    LatencyPing,
    Heartbeat,
    Status,
    Info,
    MbList,
    MailList,
    MbCreate,
    MbInfo,
    MbPurgeTrash,
    MsgSend,
    MsgSendDraft,
    MsgList,
    MsgGet,
    MsgHeaders,
    MsgMove,
    MsgCopy,
    MsgDelete,
    MsgExpunge,
    MsgUndelete,
    MsgFlagSet,
    MsgFlagClear,
    MsgBulkAction,
    Search,
    SearchGlobal,
    SearchAdv,
    ProfileGet,
    ProfileSet,
    AttachUploadInit,
    AttachGet,
    Unknown,
}

/// The command that an upper-case command name denotes.
pub open spec fn command_of(name: Seq<char>) -> Command {
    if name == "INIT"@ {
        Command::Init
    } else if name == "AUTH"@ {
        Command::Auth
    } else if name == "RESUME"@ {
        Command::Resume
    } else if name == "LOGOUT"@ {
        Command::Logout
    } else if name == "SESSION_INFO"@ {
        Command::SessionInfo
    } else if name == "SESSION_LIST"@ {
        Command::SessionList
    } else if name == "SESSION_KILL"@ {
        Command::SessionKill
    } else if name == "SESSION_SUSPEND"@ {
        Command::SessionSuspend
    } else if name == "SESSION_RESUME_SUSPENDED"@ {
        Command::SessionResumeSuspended
    } else if name == "CONNECTION_LIST"@ {
        Command::ConnectionList
    } else if name == "PING"@ {
        Command::Ping
    } else if name == "LATENCY_PING"@ {
        Command::LatencyPing
    } else if name == "HB"@ {
        Command::Heartbeat
    } else if name == "STATUS"@ {
        Command::Status
    } else if name == "INFO"@ {
        Command::Info
    } else if name == "MB_LIST"@ {
        Command::MbList
    } else if name == "MAIL_LIST"@ {
        Command::MailList
    } else if name == "MB_CREATE"@ {
        Command::MbCreate
    } else if name == "MB_INFO"@ {
        Command::MbInfo
    } else if name == "MB_PURGE_TRASH"@ {
        Command::MbPurgeTrash
    } else if name == "MSG_SEND"@ {
        Command::MsgSend
    } else if name == "MSG_SEND_DRAFT"@ {
        Command::MsgSendDraft
    } else if name == "MSG_LIST"@ {
        Command::MsgList
    } else if name == "MSG_GET"@ {
        Command::MsgGet
    } else if name == "MSG_HEADERS"@ {
        Command::MsgHeaders
    } else if name == "MSG_MOVE"@ {
        Command::MsgMove
    } else if name == "MSG_COPY"@ {
        Command::MsgCopy
    } else if name == "MSG_DELETE"@ {
        Command::MsgDelete
    } else if name == "MSG_EXPUNGE"@ {
        Command::MsgExpunge
    } else if name == "MSG_UNDELETE"@ {
        Command::MsgUndelete
    } else if name == "MSG_FLAG_SET"@ {
        Command::MsgFlagSet
    } else if name == "MSG_FLAG_CLEAR"@ {
        Command::MsgFlagClear
    } else if name == "MSG_BULK_ACTION"@ {
        Command::MsgBulkAction
    } else if name == "SEARCH"@ {
        Command::Search
    } else if name == "SEARCH_GLOBAL"@ {
        Command::SearchGlobal
    } else if name == "SEARCH_ADV"@ {
        Command::SearchAdv
    } else if name == "PROFILE_GET"@ {
        Command::ProfileGet
    } else if name == "PROFILE_SET"@ {
        Command::ProfileSet
    } else if name == "ATTACH_UPLOAD_INIT"@ {
        Command::AttachUploadInit
    } else if name == "ATTACH_GET"@ {
        Command::AttachGet
    } else {
        Command::Unknown
    }
}

/// Commands whose handling lives outside this library (mail domain,
/// profiles, attachment registration and retrieval, session suspension).
pub open spec fn is_delegated(c: Command) -> bool {
    !(c is Init || c is Auth || c is Resume || c is Logout || c is SessionInfo || c is SessionList
        || c is SessionKill || c is ConnectionList || c is Ping || c is LatencyPing || c is Heartbeat
        || c is Status || c is Info || c is Unknown)
}

/// What `str::to_uppercase` returns for a string.
pub uninterp spec fn upper_of(s: Seq<char>) -> Seq<char>;

/// Relies on `str::to_uppercase`: the upper-case form of the string.
#[verifier::external_body]
fn uppercase(s: &str) -> (r: String)
    ensures
        r@ == upper_of(s@),
{
    s.to_uppercase()
}

fn same_text(a: &str, b: &str) -> (r: bool)
    ensures
        r == (a@ == b@),
{
    a.to_string() == b.to_string()
}

impl Command {
    /// The command named exactly `name` (already upper-case).
    pub fn from_name(name: &str) -> (r: Command)
        ensures
            r == command_of(name@),
    {
        if same_text(name, "INIT") {
            Command::Init
        } else if same_text(name, "AUTH") {
            Command::Auth
        } else if same_text(name, "RESUME") {
            Command::Resume
        } else if same_text(name, "LOGOUT") {
            Command::Logout
        } else if same_text(name, "SESSION_INFO") {
            Command::SessionInfo
        } else if same_text(name, "SESSION_LIST") {
            Command::SessionList
        } else if same_text(name, "SESSION_KILL") {
            Command::SessionKill
        } else if same_text(name, "SESSION_SUSPEND") {
            Command::SessionSuspend
        } else if same_text(name, "SESSION_RESUME_SUSPENDED") {
            Command::SessionResumeSuspended
        } else if same_text(name, "CONNECTION_LIST") {
            Command::ConnectionList
        } else if same_text(name, "PING") {
            Command::Ping
        } else if same_text(name, "LATENCY_PING") {
            Command::LatencyPing
        } else if same_text(name, "HB") {
            Command::Heartbeat
        } else if same_text(name, "STATUS") {
            Command::Status
        } else if same_text(name, "INFO") {
            Command::Info
        } else if same_text(name, "MB_LIST") {
            Command::MbList
        } else if same_text(name, "MAIL_LIST") {
            Command::MailList
        } else if same_text(name, "MB_CREATE") {
            Command::MbCreate
        } else if same_text(name, "MB_INFO") {
            Command::MbInfo
        } else if same_text(name, "MB_PURGE_TRASH") {
            Command::MbPurgeTrash
        } else if same_text(name, "MSG_SEND") {
            Command::MsgSend
        } else if same_text(name, "MSG_SEND_DRAFT") {
            Command::MsgSendDraft
        } else if same_text(name, "MSG_LIST") {
            Command::MsgList
        } else if same_text(name, "MSG_GET") {
            Command::MsgGet
        } else if same_text(name, "MSG_HEADERS") {
            Command::MsgHeaders
        } else if same_text(name, "MSG_MOVE") {
            Command::MsgMove
        } else if same_text(name, "MSG_COPY") {
            Command::MsgCopy
        } else if same_text(name, "MSG_DELETE") {
            Command::MsgDelete
        } else if same_text(name, "MSG_EXPUNGE") {
            Command::MsgExpunge
        } else if same_text(name, "MSG_UNDELETE") {
            Command::MsgUndelete
        } else if same_text(name, "MSG_FLAG_SET") {
            Command::MsgFlagSet
        } else if same_text(name, "MSG_FLAG_CLEAR") {
            Command::MsgFlagClear
        } else if same_text(name, "MSG_BULK_ACTION") {
            Command::MsgBulkAction
        } else if same_text(name, "SEARCH") {
            Command::Search
        } else if same_text(name, "SEARCH_GLOBAL") {
            Command::SearchGlobal
        } else if same_text(name, "SEARCH_ADV") {
            Command::SearchAdv
        } else if same_text(name, "PROFILE_GET") {
            Command::ProfileGet
        } else if same_text(name, "PROFILE_SET") {
            Command::ProfileSet
        } else if same_text(name, "ATTACH_UPLOAD_INIT") {
            Command::AttachUploadInit
        } else if same_text(name, "ATTACH_GET") {
            Command::AttachGet
        } else {
            Command::Unknown
        }
    }

    /// Whether the command is handled outside this library.
    pub fn is_delegated(&self) -> (r: bool)
        ensures
            r == is_delegated(*self),
    {
        !matches!(
            self,
            Command::Init | Command::Auth | Command::Resume | Command::Logout
                | Command::SessionInfo | Command::SessionList | Command::SessionKill
                | Command::ConnectionList | Command::Ping
                | Command::LatencyPing | Command::Heartbeat | Command::Status | Command::Info
                | Command::Unknown
        )
    }
}

/// The command a request names, compared without regard to case.
pub fn classify(raw: &str) -> (r: (String, Command))
    ensures
        r.0@ == upper_of(raw@),
        r.1 == command_of(upper_of(raw@)),
{
    let upper = uppercase(raw);
    let c = Command::from_name(upper.as_str());
    (upper, c)
}

/// The mathematical value of a response.
pub struct ResponseView {
    pub status: Seq<char>,
    pub cmd: Seq<char>,
    pub msg: Option<Seq<char>>,
    pub session_token: Option<Seq<char>>,
    pub authenticated: Option<bool>,
    pub email: Option<Seq<char>>,
    pub username: Option<Seq<char>>,
    pub code: Option<u32>,
    pub data: Option<JsonValue>,
    pub server_time: Option<Seq<char>>,
    pub uptime: Option<u64>,
}

/// An outgoing response. Absent fields are left out of the wire form.
#[derive(Debug)]
pub struct Response {
    /// `OK` or `ERR`.
    pub status: String,
    pub cmd: String,
    pub msg: Option<String>,
    pub session_token: Option<String>,
    pub authenticated: Option<bool>,
    pub email: Option<String>,
    pub username: Option<String>,
    pub code: Option<u32>,
    pub data: Option<JsonValue>,
    pub server_time: Option<String>,
    pub uptime: Option<u64>,
}

impl View for Response {
    type V = ResponseView;

    open spec fn view(&self) -> ResponseView {
        ResponseView {
            status: self.status@,
            cmd: self.cmd@,
            msg: opt_text(self.msg),
            session_token: opt_text(self.session_token),
            authenticated: self.authenticated,
            email: opt_text(self.email),
            username: opt_text(self.username),
            code: self.code,
            data: self.data,
            server_time: opt_text(self.server_time),
            uptime: self.uptime,
        }
    }
}

/// A success response for `cmd` with no optional field.
pub open spec fn ok_view(cmd: Seq<char>) -> ResponseView {
    ResponseView {
        status: "OK"@,
        cmd,
        msg: None,
        session_token: None,
        authenticated: None,
        email: None,
        username: None,
        code: None,
        data: None,
        server_time: None,
        uptime: None,
    }
}

/// An error response for `cmd` with a message and a code.
pub open spec fn err_view(cmd: Seq<char>, msg: Seq<char>, code: u32) -> ResponseView {
    ResponseView { status: "ERR"@, msg: Some(msg), code: Some(code), ..ok_view(cmd) }
}

impl Response {
    /// A success response.
    pub fn ok(cmd: &str) -> (r: Self)
        ensures
            r@ == ok_view(cmd@),
    {
        Response {
            status: "OK".to_string(),
            cmd: cmd.to_string(),
            msg: None,
            session_token: None,
            authenticated: None,
            email: None,
            username: None,
            code: None,
            data: None,
            server_time: None,
            uptime: None,
        }
    }

    /// An error response with a message and a numeric code.
    pub fn err(cmd: &str, msg: &str, code: u32) -> (r: Self)
        ensures
            r@ == err_view(cmd@, msg@, code),
    {
        Response {
            status: "ERR".to_string(),
            cmd: cmd.to_string(),
            msg: Some(msg.to_string()),
            session_token: None,
            authenticated: None,
            email: None,
            username: None,
            code: Some(code),
            data: None,
            server_time: None,
            uptime: None,
        }
    }

    pub fn with_token(self, token: String) -> (r: Self)
        ensures
            r@ == (ResponseView { session_token: Some(token@), ..self@ }),
    {
        Response { session_token: Some(token), ..self }
    }

    pub fn with_auth(self, authenticated: bool) -> (r: Self)
        ensures
            r@ == (ResponseView { authenticated: Some(authenticated), ..self@ }),
    {
        Response { authenticated: Some(authenticated), ..self }
    }

    pub fn with_email(self, email: String) -> (r: Self)
        ensures
            r@ == (ResponseView { email: Some(email@), ..self@ }),
    {
        Response { email: Some(email), ..self }
    }

    pub fn with_username(self, username: String) -> (r: Self)
        ensures
            r@ == (ResponseView { username: Some(username@), ..self@ }),
    {
        Response { username: Some(username), ..self }
    }

    pub fn with_msg(self, msg: &str) -> (r: Self)
        ensures
            r@ == (ResponseView { msg: Some(msg@), ..self@ }),
    {
        Response { msg: Some(msg.to_string()), ..self }
    }

    pub fn with_data(self, data: JsonValue) -> (r: Self)
        ensures
            r@ == (ResponseView { data: Some(data), ..self@ }),
    {
        Response { data: Some(data), ..self }
    }

    pub fn with_server_time(self, ts: String) -> (r: Self)
        ensures
            r@ == (ResponseView { server_time: Some(ts@), ..self@ }),
    {
        Response { server_time: Some(ts), ..self }
    }

    pub fn with_uptime(self, secs: u64) -> (r: Self)
        ensures
            r@ == (ResponseView { uptime: Some(secs), ..self@ }),
    {
        Response { uptime: Some(secs), ..self }
    }
}

/// The unsolicited liveness message.
#[derive(Debug, Clone)]
pub struct Heartbeat {
    /// Always `HB`.
    pub cmd: String,
    /// Unix time in seconds.
    pub ts: i64,
}

/// Relies on `chrono::Utc::now` and `DateTime::timestamp`: the current Unix
/// time in seconds; nothing is known of its value.
#[verifier::external_body]
pub(crate) fn unix_now() -> (r: i64) {
    chrono::Utc::now().timestamp()
}

impl Heartbeat {
    /// A heartbeat stamped with Unix time `ts`.
    pub fn at(ts: i64) -> (r: Self)
        ensures
            r.cmd@ == "HB"@,
            r.ts == ts,
    {
        Heartbeat { cmd: "HB".to_string(), ts }
    }

    /// A heartbeat stamped with the current time.
    pub fn new() -> (r: Self)
        ensures
            r.cmd@ == "HB"@,
    {
        Heartbeat::at(unix_now())
    }
}

impl Default for Heartbeat {
    fn default() -> (r: Self)
        ensures
            r.cmd@ == "HB"@,
    {
        Heartbeat::new()
    }
}

} // verus!
