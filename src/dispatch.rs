//! The command dispatcher: session-lifecycle commands are answered here,
//! every other known command is handed back to the caller to delegate.

use vstd::prelude::*;
use crate::connection::{ConnectionInfo, ConnectionRegistry, ConnectionView};
use crate::protocol::{
    classify, command_of, err_view, field_of, int_of, ok_view, opt_text, text_of, upper_of, Command,
    JsonValue, Request, Response, ResponseView, INVALID_FORMAT, MALFORMED_JSON,
    MISSING_FIELD, SESSION_NOT_FOUND, UNKNOWN_COMMAND,
};
use crate::session::{
    authenticated_tokens, expired, local_part, SessionManager, SessionView, WmtpSession,
};
use crate::token::{
    generate_ephemeral_token, generate_identity_token, has_ephemeral_prefix, identity_token_of,
};

verus! {

broadcast use vstd::string::group_string_axioms;

/// The time as the dispatcher sees it.
#[derive(Debug, Clone, Copy)]
pub struct Clock {
    /// Seconds on the monotonic clock that session activity is stamped with.
    pub now: u64,
    /// Unix time in seconds.
    pub unix_secs: i64,
    /// Seconds since the server started.
    pub uptime_secs: u64,
}

/// What became of one request.
#[derive(Debug)]
pub enum Outcome {
    /// Answered here.
    Reply(Response),
    /// A command whose handler lives outside this library.
    Delegate(Command, Request),
}

/// The RFC 3339 text of a Unix time.
pub uninterp spec fn rfc3339_of(secs: int) -> Seq<char>;

/// Relies on `chrono::DateTime::<Utc>::from_timestamp` and `to_rfc3339`:
/// the RFC 3339 text of a Unix time, or `None` when chrono cannot represent
/// it; every time from 1970 through the end of year 9999 is representable.
#[verifier::external_body]
fn rfc3339(secs: i64) -> (r: Option<String>)
    ensures
        r matches Some(t) ==> t@ == rfc3339_of(secs as int),
        0 <= secs <= 253_402_300_799 ==> r is Some,
{
    match chrono::DateTime::<chrono::Utc>::from_timestamp(secs, 0) {
        Some(d) => Some(d.to_rfc3339()),
        None => None,
    }
}

/// Whether `s` contains `c`.
pub open spec fn has_char(s: Seq<char>, c: char) -> bool {
    exists|i: int| 0 <= i < s.len() && s[i] == c
}

fn contains_char(s: &str, c: char) -> (r: bool)
    ensures
        r == has_char(s@, c),
{
    let n = s.unicode_len();
    let mut i: usize = 0;
    while i < n
        invariant
            n == s@.len(),
            i <= n,
            forall|j: int| 0 <= j < i ==> s@[j] != c,
        decreases n - i,
    {
        if s.get_char(i) == c {
            return true;
        }
        i = i + 1;
    }
    false
}

/// An email that AUTH accepts: it holds both `@` and `.`.
pub open spec fn plausible_email(email: Seq<char>) -> bool {
    has_char(email, '@') && has_char(email, '.')
}

pub open spec fn init_view(token: Seq<char>) -> ResponseView {
    ResponseView { session_token: Some(token), authenticated: Some(false), ..ok_view("INIT"@) }
}

pub open spec fn auth_view(token: Seq<char>, email: Seq<char>) -> ResponseView {
    ResponseView {
        session_token: Some(token),
        authenticated: Some(true),
        email: Some(email),
        username: Some(local_part(email)),
        ..ok_view("AUTH"@)
    }
}

/// The RESUME answer for a live session.
pub open spec fn resume_view(s: SessionView) -> ResponseView {
    ResponseView {
        session_token: Some(s.token),
        authenticated: Some(s.authenticated),
        email: s.email,
        username: s.username,
        ..ok_view("RESUME"@)
    }
}

pub type Sessions = Map<Seq<char>, SessionView>;

/// INIT: a fresh unauthenticated session under `token`.
pub open spec fn init_effect(m: Sessions, token: Seq<char>, now: u64) -> (Sessions, ResponseView) {
    (
        m.insert(
            token,
            SessionView {
                token,
                authenticated: false,
                email: None,
                username: None,
                created_at: Some(now),
                last_activity: Some(now),
            },
        ),
        init_view(token),
    )
}

/// The token INIT hands out for a drawn `token`: one that no session has,
/// which extends the drawn token, and is the drawn token itself whenever
/// no session has that.
pub open spec fn fresh_variant(m: Sessions, token: Seq<char>, t: Seq<char>) -> bool {
    &&& !m.contains_key(t)
    &&& token.len() <= t.len()
    &&& t.subrange(0, token.len() as int) == token
    &&& !m.contains_key(token) ==> t == token
}

/// AUTH: a missing or empty email and an implausible one are refused with
/// the store unchanged; otherwise the identity token keys a fresh
/// authenticated session.
pub open spec fn auth_effect(m: Sessions, email: Option<Seq<char>>, secret: Seq<char>, now: u64) -> (
    Sessions,
    ResponseView,
) {
    match email {
        Some(e) if e.len() > 0 => if !plausible_email(e) {
            (m, err_view("AUTH"@, "INVALID_EMAIL"@, INVALID_FORMAT))
        } else {
            let t = identity_token_of(e, secret);
            (
                m.insert(
                    t,
                    SessionView {
                        token: t,
                        authenticated: true,
                        email: Some(e),
                        username: Some(local_part(e)),
                        created_at: Some(now),
                        last_activity: Some(now),
                    },
                ),
                auth_view(t, e),
            )
        },
        _ => (m, err_view("AUTH"@, "MISSING_EMAIL"@, MISSING_FIELD)),
    }
}

/// RESUME: a live session is touched and echoed; a missing or expired one
/// is not found, and an expired one is dropped.
pub open spec fn resume_effect(m: Sessions, timeout: u64, token: Option<Seq<char>>, now: u64) -> (
    Sessions,
    ResponseView,
) {
    match token {
        None => (m, err_view("RESUME"@, "MISSING_TOKEN"@, MISSING_FIELD)),
        Some(t) => if !m.contains_key(t) || expired(m[t], timeout, now) {
            (m.remove(t), err_view("RESUME"@, "SESSION_NOT_FOUND"@, SESSION_NOT_FOUND))
        } else {
            let s = SessionView { last_activity: Some(now), ..m[t] };
            (m.insert(t, s), resume_view(s))
        },
    }
}

/// LOGOUT: the session under the token, if any, is gone; always OK.
pub open spec fn logout_effect(m: Sessions, token: Option<Seq<char>>) -> (Sessions, ResponseView) {
    (
        match token {
            Some(t) => m.remove(t),
            None => m,
        },
        ok_view("LOGOUT"@),
    )
}

/// Stores a fresh unauthenticated session and answers with its token:
/// `token`, or, when a session already has that, `token` extended until no
/// session has it.
pub fn handle_init(sessions: &mut SessionManager, token: String, now: u64) -> (r: Response)
    requires
        old(sessions).wf(),
    ensures
        final(sessions).wf(),
        final(sessions).timeout() == old(sessions).timeout(),
        (r@.session_token matches Some(t) && fresh_variant(old(sessions)@, token@, t) && (
        final(sessions)@, r@) == init_effect(old(sessions)@, t, now)),
{
    let ghost drawn = token@;
    let mut t = token;
    if sessions.contains(t.as_str()) {
        let longest = sessions.longest_token_len();
        while t.as_str().unicode_len() <= longest
            invariant
                drawn.len() <= t@.len(),
                t@.subrange(0, drawn.len() as int) == drawn,
            decreases longest + 1 - t@.len(),
        {
            let ghost before = t@;
            t.append("-");
            proof {
                reveal_strlit("-");
                assert(t@.len() == before.len() + 1);
                assert(t@.subrange(0, drawn.len() as int) =~= before.subrange(0, drawn.len() as int));
            }
        }
        proof {
            if sessions@.contains_key(t@) {
                assert(t@.len() <= longest);
            }
        }
    } else {
        proof {
            assert(t@.subrange(0, drawn.len() as int) =~= drawn);
        }
    }
    let reply = t.clone();
    sessions.insert(WmtpSession::new_ephemeral(t, now));
    Response::ok("INIT").with_token(reply).with_auth(false)
}

/// Authenticates by email: the identity token of the email becomes the key
/// of a fresh authenticated session.
pub fn handle_auth(sessions: &mut SessionManager, email: Option<String>, secret: &str, now: u64) -> (r:
    Response)
    requires
        old(sessions).wf(),
    ensures
        final(sessions).wf(),
        final(sessions).timeout() == old(sessions).timeout(),
        (final(sessions)@, r@) == auth_effect(old(sessions)@, opt_text(email), secret@, now),
{
    match email {
        None => Response::err("AUTH", "MISSING_EMAIL", MISSING_FIELD),
        Some(e) => {
            if e.as_str().is_empty() {
                Response::err("AUTH", "MISSING_EMAIL", MISSING_FIELD)
            } else if !(contains_char(e.as_str(), '@') && contains_char(e.as_str(), '.')) {
                Response::err("AUTH", "INVALID_EMAIL", INVALID_FORMAT)
            } else {
                let token = generate_identity_token(e.as_str(), secret);
                let session = WmtpSession::new_authenticated(token.clone(), e.clone(), now);
                let username = crate::session::local_part_of(e.as_str());
                sessions.insert(session);
                Response::ok("AUTH").with_token(token).with_auth(true).with_email(e).with_username(
                    username,
                )
            }
        },
    }
}

/// Resumes the live session under `token`: it is touched and its public
/// fields are echoed. A missing or expired session is not found; an expired
/// one is dropped.
pub fn handle_resume(sessions: &mut SessionManager, token: Option<String>, now: u64) -> (r: Response)
    requires
        old(sessions).wf(),
    ensures
        final(sessions).wf(),
        final(sessions).timeout() == old(sessions).timeout(),
        (final(sessions)@, r@) == resume_effect(
            old(sessions)@,
            old(sessions).timeout(),
            opt_text(token),
            now,
        ),
{
    match token {
        None => Response::err("RESUME", "MISSING_TOKEN", MISSING_FIELD),
        Some(t) => {
            let timeout = sessions.session_timeout();
            match sessions.get(t.as_str()) {
                None => {
                    proof {
                        assert(old(sessions)@.remove(t@) =~= old(sessions)@);
                    }
                    Response::err("RESUME", "SESSION_NOT_FOUND", SESSION_NOT_FOUND)
                },
                Some(s) => {
                    if s.is_expired(timeout, now) {
                        sessions.remove(t.as_str());
                        Response::err("RESUME", "SESSION_NOT_FOUND", SESSION_NOT_FOUND)
                    } else {
                        sessions.touch(t.as_str(), now);
                        let resp = Response::ok("RESUME").with_token(s.token).with_auth(
                            s.authenticated,
                        );
                        let resp = match s.email {
                            Some(e) => resp.with_email(e),
                            None => resp,
                        };
                        match s.username {
                            Some(u) => resp.with_username(u),
                            None => resp,
                        }
                    }
                },
            }
        },
    }
}

/// Ends the session under `token`, if any; always succeeds.
pub fn handle_logout(sessions: &mut SessionManager, token: Option<String>) -> (r: Response)
    requires
        old(sessions).wf(),
    ensures
        final(sessions).wf(),
        final(sessions).timeout() == old(sessions).timeout(),
        (final(sessions)@, r@) == logout_effect(old(sessions)@, opt_text(token)),
{
    match token {
        Some(t) => {
            sessions.remove(t.as_str());
        },
        None => {},
    }
    Response::ok("LOGOUT")
}

/// A liveness reply: OK with the given name and message, the uptime, and the
/// server time whenever it can be written; no other field.
pub open spec fn is_liveness(x: ResponseView, cmd: Seq<char>, msg: Seq<char>, clock: Clock) -> bool {
    &&& x.status == "OK"@
    &&& x.cmd == cmd
    &&& x.msg == Some(msg)
    &&& x.uptime == Some(clock.uptime_secs)
    &&& (x.server_time matches Some(t) ==> t == rfc3339_of(clock.unix_secs as int))
    &&& (0 <= clock.unix_secs <= 253_402_300_799 ==> x.server_time == Some(
        rfc3339_of(clock.unix_secs as int),
    ))
    &&& x.session_token is None && x.authenticated is None && x.email is None
    &&& x.username is None && x.code is None && x.data is None
}

/// A STATUS or INFO reply: OK with the uptime, and the number of sessions
/// and of authenticated sessions as a two-field object.
pub open spec fn is_status(x: ResponseView, cmd: Seq<char>, m: Sessions, clock: Clock) -> bool {
    &&& x.status == "OK"@
    &&& x.cmd == cmd
    &&& x.uptime == Some(clock.uptime_secs)
    &&& (x.data matches Some(JsonValue::Object(fields)) && fields@.len() == 2 && fields@[0].0@
        == "active_sessions"@ && fields@[0].1 == JsonValue::Int(clamp_i64(m.len()))
        && fields@[1].0@ == "authenticated_sessions"@ && fields@[1].1 == JsonValue::Int(
        clamp_i64(authenticated_tokens(m).len()),
    ))
}

/// A SESSION_LIST reply: OK with one item per session, each naming a stored
/// token, every stored token named.
pub open spec fn lists_sessions(x: ResponseView, m: Sessions) -> bool {
    &&& x.status == "OK"@
    &&& x.cmd == "SESSION_LIST"@
    &&& (x.data matches Some(JsonValue::Array(items)) && items@.len() == m.len() && (forall|
        k: Seq<char>,
    | #[trigger] m.contains_key(k) ==> exists|j: int|
        0 <= j < items@.len() && listed_token(items@[j]) == Some(k)) && (forall|j: int|
        0 <= j < items@.len() ==> #[trigger] listed_token(items@[j]) is Some && m.contains_key(
            listed_token(items@[j])->Some_0,
        )))
}

/// A liveness answer carrying the uptime and, when it can be written, the
/// server time.
pub fn liveness_response(cmd: &str, msg: &str, clock: &Clock) -> (r: Response)
    ensures
        is_liveness(r@, cmd@, msg@, *clock),
{
    let resp = Response::ok(cmd).with_msg(msg).with_uptime(clock.uptime_secs);
    match rfc3339(clock.unix_secs) {
        Some(ts) => resp.with_server_time(ts),
        None => resp,
    }
}

/// A count as a payload integer, capped at the largest `i64`.
pub open spec fn clamp_i64(n: nat) -> i64 {
    if n <= i64::MAX {
        n as i64
    } else {
        i64::MAX
    }
}

fn count_value(n: usize) -> (r: JsonValue)
    ensures
        r == JsonValue::Int(clamp_i64(n as nat)),
{
    if (n as u64) <= (i64::MAX as u64) {
        JsonValue::Int(n as i64)
    } else {
        JsonValue::Int(i64::MAX)
    }
}

/// The STATUS or INFO answer: session counts and uptime.
pub fn status_response(cmd: &str, sessions: &SessionManager, clock: &Clock) -> (r: Response)
    requires
        sessions.wf(),
    ensures
        is_status(r@, cmd@, sessions@, *clock),
{
    let active = sessions.active_count();
    let authed = sessions.authenticated_count();
    let mut fields: Vec<(String, JsonValue)> = Vec::new();
    fields.push(("active_sessions".to_string(), count_value(active)));
    fields.push(("authenticated_sessions".to_string(), count_value(authed)));
    Response::ok(cmd).with_uptime(clock.uptime_secs).with_data(JsonValue::Object(fields))
}

/// The answer to a request that could not be parsed.
pub fn parse_error_response(detail: &str) -> (r: Response)
    ensures
        r@ == err_view("PARSE"@, "Invalid JSON: "@ + detail@, MALFORMED_JSON),
{
    let mut msg = "Invalid JSON: ".to_string();
    msg.append(detail);
    Response::err("PARSE", msg.as_str(), MALFORMED_JSON)
}

/// The answer to a command outside the protocol; it names the command.
pub fn unknown_command_response(name: &str) -> (r: Response)
    ensures
        r@ == err_view("UNKNOWN"@, "Unknown command: "@ + name@, UNKNOWN_COMMAND),
{
    let mut msg = "Unknown command: ".to_string();
    msg.append(name);
    Response::err("UNKNOWN", msg.as_str(), UNKNOWN_COMMAND)
}

/// The public fields of a session, as SESSION_INFO and RESUME echo them.
pub open spec fn session_fields_view(cmd: Seq<char>, s: SessionView) -> ResponseView {
    ResponseView {
        session_token: Some(s.token),
        authenticated: Some(s.authenticated),
        email: s.email,
        username: s.username,
        ..ok_view(cmd)
    }
}

/// SESSION_INFO: the public fields of a live session, which is left as it
/// is; a missing or expired session is not found.
pub open spec fn session_info_effect(m: Sessions, timeout: u64, token: Option<Seq<char>>, now: u64) -> ResponseView {
    match token {
        None => err_view("SESSION_INFO"@, "MISSING_TOKEN"@, MISSING_FIELD),
        Some(t) => if !m.contains_key(t) || expired(m[t], timeout, now) {
            err_view("SESSION_INFO"@, "SESSION_NOT_FOUND"@, SESSION_NOT_FOUND)
        } else {
            session_fields_view("SESSION_INFO"@, m[t])
        },
    }
}

/// SESSION_KILL: the session under the token is removed; an unknown token
/// is not found.
pub open spec fn session_kill_effect(m: Sessions, token: Option<Seq<char>>) -> (Sessions, ResponseView) {
    match token {
        None => (m, err_view("SESSION_KILL"@, "MISSING_TOKEN"@, MISSING_FIELD)),
        Some(t) => if m.contains_key(t) {
            (m.remove(t), ok_view("SESSION_KILL"@))
        } else {
            (m, err_view("SESSION_KILL"@, "SESSION_NOT_FOUND"@, SESSION_NOT_FOUND))
        },
    }
}

fn fields_response(cmd: &str, s: WmtpSession) -> (r: Response)
    ensures
        r@ == session_fields_view(cmd@, s@),
{
    let resp = Response::ok(cmd).with_token(s.token).with_auth(s.authenticated);
    let resp = match s.email {
        Some(e) => resp.with_email(e),
        None => resp,
    };
    match s.username {
        Some(u) => resp.with_username(u),
        None => resp,
    }
}

/// Answers SESSION_INFO.
pub fn handle_session_info(sessions: &SessionManager, token: Option<String>, now: u64) -> (r: Response)
    requires
        sessions.wf(),
    ensures
        r@ == session_info_effect(sessions@, sessions.timeout(), opt_text(token), now),
{
    match token {
        None => Response::err("SESSION_INFO", "MISSING_TOKEN", MISSING_FIELD),
        Some(t) => match sessions.get(t.as_str()) {
            None => Response::err("SESSION_INFO", "SESSION_NOT_FOUND", SESSION_NOT_FOUND),
            Some(s) => {
                if s.is_expired(sessions.session_timeout(), now) {
                    Response::err("SESSION_INFO", "SESSION_NOT_FOUND", SESSION_NOT_FOUND)
                } else {
                    fields_response("SESSION_INFO", s)
                }
            },
        },
    }
}

/// Answers SESSION_KILL.
pub fn handle_session_kill(sessions: &mut SessionManager, token: Option<String>) -> (r: Response)
    requires
        old(sessions).wf(),
    ensures
        final(sessions).wf(),
        final(sessions).timeout() == old(sessions).timeout(),
        (final(sessions)@, r@) == session_kill_effect(old(sessions)@, opt_text(token)),
{
    match token {
        None => Response::err("SESSION_KILL", "MISSING_TOKEN", MISSING_FIELD),
        Some(t) => match sessions.remove(t.as_str()) {
            Some(_) => Response::ok("SESSION_KILL"),
            None => {
                proof {
                    assert(old(sessions)@.remove(t@) =~= old(sessions)@);
                }
                Response::err("SESSION_KILL", "SESSION_NOT_FOUND", SESSION_NOT_FOUND)
            },
        },
    }
}

/// The token a listed item names: the text of its first field.
pub open spec fn listed_token(v: JsonValue) -> Option<Seq<char>> {
    match v {
        JsonValue::Object(f) => if f@.len() > 0 && f@[0].0@ == "session_token"@ {
            text_of(Some(f@[0].1))
        } else {
            None
        },
        _ => None,
    }
}

fn session_summary(s: &WmtpSession) -> (r: JsonValue)
    ensures
        listed_token(r) == Some(s.token@),
{
    let mut fields: Vec<(String, JsonValue)> = Vec::new();
    fields.push(("session_token".to_string(), JsonValue::Text(s.token.clone())));
    fields.push(("authenticated".to_string(), JsonValue::Bool(s.authenticated)));
    let v = JsonValue::Object(fields);
    v
}

/// Answers SESSION_LIST: one item per session, naming its token first.
pub fn session_list_response(sessions: &SessionManager) -> (r: Response)
    requires
        sessions.wf(),
    ensures
        lists_sessions(r@, sessions@),
{
    let all = sessions.list_all();
    let mut items: Vec<JsonValue> = Vec::new();
    let mut i: usize = 0;
    while i < all.len()
        invariant
            i <= all@.len(),
            items@.len() == i,
            forall|j: int| 0 <= j < i ==> #[trigger] listed_token(items@[j]) == Some(all@[j]@.token),
        decreases all@.len() - i,
    {
        items.push(session_summary(&all[i]));
        i = i + 1;
    }
    proof {
        assert forall|k: Seq<char>| #[trigger] sessions@.contains_key(k) implies exists|j: int|
            0 <= j < items@.len() && listed_token(items@[j]) == Some(k) by {
            sessions.lemma_keys_are_tokens();
            let j = choose|j: int| 0 <= j < all@.len() && all@[j]@ == sessions@[k];
            assert(listed_token(items@[j]) == Some(all@[j]@.token));
        }
        assert forall|j: int| 0 <= j < items@.len() implies #[trigger] listed_token(items@[j]) is Some
            && sessions@.contains_key(listed_token(items@[j])->Some_0) by {
            assert(listed_token(items@[j]) == Some(all@[j]@.token));
            assert(sessions@.contains_key(all@[j]@.token));
        }
    }
    Response::ok("SESSION_LIST").with_data(JsonValue::Array(items))
}

/// The connection id a listed item names: the integer of its first field.
pub open spec fn listed_id(v: JsonValue) -> Option<i64> {
    match v {
        JsonValue::Object(f) => if f@.len() > 0 && f@[0].0@ == "id"@ {
            int_of(Some(f@[0].1))
        } else {
            None
        },
        _ => None,
    }
}

fn u64_value(n: u64) -> (r: JsonValue)
    ensures
        r == JsonValue::Int(clamp_i64(n as nat)),
{
    if n <= (i64::MAX as u64) {
        JsonValue::Int(n as i64)
    } else {
        JsonValue::Int(i64::MAX)
    }
}

fn connection_summary(c: &ConnectionInfo) -> (r: JsonValue)
    ensures
        listed_id(r) == Some(clamp_i64(c.id as nat)),
{
    let mut fields: Vec<(String, JsonValue)> = Vec::new();
    fields.push(("id".to_string(), u64_value(c.id)));
    let remote = match &c.remote {
        Some(a) => JsonValue::Text(a.clone()),
        None => JsonValue::Null,
    };
    fields.push(("remote".to_string(), remote));
    fields.push(("connected_at".to_string(), u64_value(c.connected_at)));
    JsonValue::Object(fields)
}

/// Answers CONNECTION_LIST: one item per live connection, in registration
/// order, naming its id first.
pub fn connection_list_response(connections: &ConnectionRegistry) -> (r: Response)
    ensures
        r@.status == "OK"@,
        r@.cmd == "CONNECTION_LIST"@,
        r@.data matches Some(JsonValue::Array(items)) && items@.len() == connections@.len() && (
        forall|j: int| 0 <= j < items@.len() ==> #[trigger] listed_id(items@[j]) == Some(
            clamp_i64(connections@[j].id as nat),
        )),
{
    let all = connections.list();
    let mut items: Vec<JsonValue> = Vec::new();
    let mut i: usize = 0;
    while i < all.len()
        invariant
            i <= all@.len(),
            all@.map_values(|c: ConnectionInfo| c@) == connections@,
            items@.len() == i,
            forall|j: int| 0 <= j < i ==> #[trigger] listed_id(items@[j]) == Some(
                clamp_i64(all@[j].id as nat),
            ),
        decreases all@.len() - i,
    {
        items.push(connection_summary(&all[i]));
        i = i + 1;
    }
    proof {
        assert forall|j: int| 0 <= j < items@.len() implies #[trigger] listed_id(items@[j]) == Some(
            clamp_i64(connections@[j].id as nat),
        ) by {
            assert(all@.map_values(|c: ConnectionInfo| c@)[j] == all@[j]@);
        }
    }
    Response::ok("CONNECTION_LIST").with_data(JsonValue::Array(items))
}

/// What dispatching `req` does: `m2` is the store after it and `r` the
/// outcome. `fresh` is the token that INIT hands out.
pub open spec fn dispatched(
    m: Sessions,
    timeout: u64,
    req: Request,
    secret: Seq<char>,
    clock: Clock,
    fresh: Seq<char>,
    conns: Seq<ConnectionView>,
    m2: Sessions,
    r: Outcome,
) -> bool {
    let c = command_of(upper_of(req.cmd@));
    match c {
        Command::Init => r matches Outcome::Reply(x) && (x@.session_token matches Some(t)
            && fresh_variant(m, fresh, t) && (m2, x@) == init_effect(m, t, clock.now)),
        Command::Auth => r matches Outcome::Reply(x) && (m2, x@) == auth_effect(
            m,
            text_of(field_of(req.data, "email"@)),
            secret,
            clock.now,
        ),
        Command::Resume => r matches Outcome::Reply(x) && (m2, x@) == resume_effect(
            m,
            timeout,
            text_of(field_of(req.data, "session_token"@)),
            clock.now,
        ),
        Command::Logout => r matches Outcome::Reply(x) && (m2, x@) == logout_effect(
            m,
            text_of(field_of(req.data, "session_token"@)),
        ),
        Command::Ping => r matches Outcome::Reply(x) && m2 == m && is_liveness(
            x@,
            "PONG"@,
            "PONG"@,
            clock,
        ),
        Command::LatencyPing => r matches Outcome::Reply(x) && m2 == m && is_liveness(
            x@,
            "LATENCY_PONG"@,
            "Latency ping"@,
            clock,
        ),
        Command::Heartbeat => r matches Outcome::Reply(x) && m2 == m && is_liveness(
            x@,
            "HB"@,
            "Heartbeat"@,
            clock,
        ),
        Command::Status => r matches Outcome::Reply(x) && m2 == m && is_status(
            x@,
            "STATUS"@,
            m,
            clock,
        ),
        Command::Info => r matches Outcome::Reply(x) && m2 == m && is_status(x@, "INFO"@, m, clock),
        Command::Unknown => r matches Outcome::Reply(x) && m2 == m && x@ == err_view(
            "UNKNOWN"@,
            "Unknown command: "@ + upper_of(req.cmd@),
            UNKNOWN_COMMAND,
        ),
        Command::SessionInfo => r matches Outcome::Reply(x) && m2 == m && x@ == session_info_effect(
            m,
            timeout,
            text_of(field_of(req.data, "session_token"@)),
            clock.now,
        ),
        Command::SessionKill => r matches Outcome::Reply(x) && (m2, x@) == session_kill_effect(
            m,
            text_of(field_of(req.data, "session_token"@)),
        ),
        Command::SessionList => r matches Outcome::Reply(x) && m2 == m && lists_sessions(x@, m),
        Command::ConnectionList => r matches Outcome::Reply(x) && m2 == m && x@.status == "OK"@
            && x@.cmd == "CONNECTION_LIST"@ && (x@.data matches Some(JsonValue::Array(items))
            && items@.len() == conns.len() && forall|j: int|
            0 <= j < items@.len() ==> #[trigger] listed_id(items@[j]) == Some(
                clamp_i64(conns[j].id as nat),
            )),
        _ => r matches Outcome::Delegate(d, q) && m2 == m && d == c && q == req,
    }
}

/// Routes one request: a parse failure and an unknown command are answered
/// with an error, session-lifecycle and liveness commands are answered here,
/// and every other command is handed back for delegation. `fresh` is the
/// token that INIT hands out.
pub fn dispatch(
    parsed: Result<Request, String>,
    sessions: &mut SessionManager,
    connections: &ConnectionRegistry,
    secret: &str,
    clock: &Clock,
    fresh: String,
) -> (r: Outcome)
    requires
        old(sessions).wf(),
    ensures
        final(sessions).wf(),
        final(sessions).timeout() == old(sessions).timeout(),
        match parsed {
            Err(e) => r matches Outcome::Reply(x) && final(sessions)@ == old(sessions)@ && x@
                == err_view("PARSE"@, "Invalid JSON: "@ + e@, MALFORMED_JSON),
            Ok(req) => dispatched(
                old(sessions)@,
                old(sessions).timeout(),
                req,
                secret@,
                *clock,
                fresh@,
                connections@,
                final(sessions)@,
                r,
            ),
        },
{
    match parsed {
        Err(e) => Outcome::Reply(parse_error_response(e.as_str())),
        Ok(req) => {
            let (upper, c) = classify(req.cmd.as_str());
            match c {
                Command::Init => Outcome::Reply(handle_init(sessions, fresh, clock.now)),
                Command::Auth => {
                    let email = req.get_str("email");
                    Outcome::Reply(handle_auth(sessions, email, secret, clock.now))
                },
                Command::Resume => {
                    let token = req.get_str("session_token");
                    Outcome::Reply(handle_resume(sessions, token, clock.now))
                },
                Command::Logout => {
                    let token = req.get_str("session_token");
                    Outcome::Reply(handle_logout(sessions, token))
                },
                Command::Ping => Outcome::Reply(liveness_response("PONG", "PONG", clock)),
                Command::LatencyPing => Outcome::Reply(
                    liveness_response("LATENCY_PONG", "Latency ping", clock),
                ),
                Command::Heartbeat => Outcome::Reply(liveness_response("HB", "Heartbeat", clock)),
                Command::Status => Outcome::Reply(status_response("STATUS", sessions, clock)),
                Command::Info => Outcome::Reply(status_response("INFO", sessions, clock)),
                Command::SessionInfo => {
                    let token = req.get_str("session_token");
                    Outcome::Reply(handle_session_info(sessions, token, clock.now))
                },
                Command::SessionKill => {
                    let token = req.get_str("session_token");
                    Outcome::Reply(handle_session_kill(sessions, token))
                },
                Command::SessionList => Outcome::Reply(session_list_response(sessions)),
                Command::ConnectionList => Outcome::Reply(connection_list_response(connections)),
                Command::Unknown => Outcome::Reply(unknown_command_response(upper.as_str())),
                _ => Outcome::Delegate(c, req),
            }
        },
    }
}

/// Routes one request as `dispatch` does, with a freshly drawn ephemeral
/// token for INIT.
pub fn process_command(
    parsed: Result<Request, String>,
    sessions: &mut SessionManager,
    connections: &ConnectionRegistry,
    secret: &str,
    clock: &Clock,
) -> (r: Outcome)
    requires
        old(sessions).wf(),
    ensures
        final(sessions).wf(),
        final(sessions).timeout() == old(sessions).timeout(),
        match parsed {
            Err(e) => r matches Outcome::Reply(x) && final(sessions)@ == old(sessions)@ && x@
                == err_view("PARSE"@, "Invalid JSON: "@ + e@, MALFORMED_JSON),
            Ok(req) => exists|fresh: Seq<char>|
                has_ephemeral_prefix(fresh) && dispatched(
                    old(sessions)@,
                    old(sessions).timeout(),
                    req,
                    secret@,
                    *clock,
                    fresh,
                    connections@,
                    final(sessions)@,
                    r,
                ),
        },
        match parsed {
            Ok(req) => command_of(upper_of(req.cmd@)) is Init ==> (r matches Outcome::Reply(x) && (
            x@.session_token matches Some(t) && has_ephemeral_prefix(t) && !old(
                sessions,
            )@.contains_key(t) && (final(sessions)@, x@) == init_effect(old(sessions)@, t, clock.now))),
            Err(_) => true,
        },
{
    let fresh = generate_ephemeral_token();
    let ghost f = fresh@;
    let r = dispatch(parsed, sessions, connections, secret, clock, fresh);
    proof {
        if parsed is Ok {
            assert(has_ephemeral_prefix(f));
            let req = parsed->Ok_0;
            if command_of(upper_of(req.cmd@)) is Init {
                let x = r->Reply_0;
                let t = x@.session_token->Some_0;
                lemma_init_fresh(old(sessions)@, f, t, clock.now);
            }
        }
    }
    r
}

/// AUTH without an email, or with an empty one, is refused as a missing
/// field and leaves every session as it was.
pub proof fn lemma_auth_missing_email(m: Sessions, email: Option<Seq<char>>, secret: Seq<char>, now: u64)
    requires
        email matches Some(e) ==> e.len() == 0,
    ensures
        auth_effect(m, email, secret, now) == (m, err_view("AUTH"@, "MISSING_EMAIL"@, MISSING_FIELD)),
{
}

/// AUTH with one email, issued twice, answers with the same token both
/// times, and the second leaves one session under it.
pub proof fn lemma_auth_idempotent(m: Sessions, email: Seq<char>, secret: Seq<char>, now1: u64, now2: u64)
    requires
        email.len() > 0,
        plausible_email(email),
    ensures
        ({
            let (m1, r1) = auth_effect(m, Some(email), secret, now1);
            let (m2, r2) = auth_effect(m1, Some(email), secret, now2);
            &&& r1.status == "OK"@ && r2.status == "OK"@
            &&& r1.session_token == r2.session_token
            &&& r1.session_token == Some(identity_token_of(email, secret))
            &&& m2.dom() == m1.dom()
        }),
{
    let (m1, r1) = auth_effect(m, Some(email), secret, now1);
    let (m2, r2) = auth_effect(m1, Some(email), secret, now2);
    assert(m2.dom() =~= m1.dom());
}

/// INIT answers OK with a token that no session had, which carries the
/// ephemeral prefix when the drawn token does, and a session then stands
/// under it.
pub proof fn lemma_init_fresh(m: Sessions, drawn: Seq<char>, t: Seq<char>, now: u64)
    requires
        fresh_variant(m, drawn, t),
    ensures
        init_effect(m, t, now).1.status == "OK"@,
        !m.contains_key(t),
        init_effect(m, t, now).0.contains_key(t),
        has_ephemeral_prefix(drawn) ==> has_ephemeral_prefix(t),
{
    if has_ephemeral_prefix(drawn) {
        assert(t.subrange(0, 5) =~= t.subrange(0, drawn.len() as int).subrange(0, 5));
    }
}

/// RESUME with a token just handed out by INIT, within the timeout, answers
/// OK and echoes the token as unauthenticated.
pub proof fn lemma_resume_after_init(m: Sessions, token: Seq<char>, timeout: u64, issued: u64, now: u64)
    requires
        !m.contains_key(token),
        issued <= now,
        now - issued <= timeout,
    ensures
        ({
            let (m1, _) = init_effect(m, token, issued);
            let (_, r) = resume_effect(m1, timeout, Some(token), now);
            &&& r.status == "OK"@
            &&& r.session_token == Some(token)
            &&& r.authenticated == Some(false)
            &&& r.email is None && r.username is None
        }),
{
}

/// RESUME with the token of an AUTH, within the timeout, answers OK and
/// echoes the token, the email and the username.
pub proof fn lemma_resume_after_auth(
    m: Sessions,
    email: Seq<char>,
    secret: Seq<char>,
    timeout: u64,
    issued: u64,
    now: u64,
)
    requires
        email.len() > 0,
        plausible_email(email),
        issued <= now,
        now - issued <= timeout,
    ensures
        ({
            let t = identity_token_of(email, secret);
            let (m1, _) = auth_effect(m, Some(email), secret, issued);
            let (_, r) = resume_effect(m1, timeout, Some(t), now);
            &&& r.status == "OK"@
            &&& r.session_token == Some(t)
            &&& r.authenticated == Some(true)
            &&& r.email == Some(email)
            &&& r.username == Some(local_part(email))
        }),
{
}

/// RESUME with a token that names no session answers not found and
/// changes nothing.
pub proof fn lemma_resume_unknown(m: Sessions, timeout: u64, token: Seq<char>, now: u64)
    requires
        !m.contains_key(token),
    ensures
        resume_effect(m, timeout, Some(token), now) == (
            m,
            err_view("RESUME"@, "SESSION_NOT_FOUND"@, SESSION_NOT_FOUND),
        ),
{
    assert(m.remove(token) =~= m);
}

/// LOGOUT answers OK for every token, known or not, and no session remains
/// under it.
pub proof fn lemma_logout_always_ok(m: Sessions, token: Seq<char>)
    ensures
        logout_effect(m, Some(token)).1 == ok_view("LOGOUT"@),
        !logout_effect(m, Some(token)).0.contains_key(token),
{
}

} // verus!
