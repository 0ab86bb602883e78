//! Sessions and the session store.
//!
//! Times are seconds on a monotonic clock, read by the caller and handed in
//! as `now`; elapsed time saturates at zero when `now` lies before a stamp.

use vstd::prelude::*;
use crate::protocol::opt_text;

verus! {

broadcast use vstd::string::group_string_axioms;

/// One client session.
#[derive(Debug, Clone)]
pub struct WmtpSession {
    /// Unique session token.
    pub token: String,
    /// Whether the client has authenticated.
    pub authenticated: bool,
    /// The client's email, once authenticated.
    pub email: Option<String>,
    /// The local part of the email.
    pub username: Option<String>,
    /// When the session was created.
    pub created_at: Option<u64>,
    /// When the session was last active.
    pub last_activity: Option<u64>,
}

/// The mathematical value of a session.
pub struct SessionView {
    pub token: Seq<char>,
    pub authenticated: bool,
    pub email: Option<Seq<char>>,
    pub username: Option<Seq<char>>,
    pub created_at: Option<u64>,
    pub last_activity: Option<u64>,
}

impl View for WmtpSession {
    type V = SessionView;

    open spec fn view(&self) -> SessionView {
        SessionView {
            token: self.token@,
            authenticated: self.authenticated,
            email: opt_text(self.email),
            username: opt_text(self.username),
            created_at: self.created_at,
            last_activity: self.last_activity,
        }
    }
}

/// The part of an email before its first `@`; the whole text when it has none.
pub open spec fn local_part(s: Seq<char>) -> Seq<char>
    decreases s.len(),
{
    if s.len() == 0 {
        s
    } else if s[0] == '@' {
        Seq::empty()
    } else {
        seq![s[0]] + local_part(s.drop_first())
    }
}

/// Seconds from `since` to `now`, zero when `now` lies before `since`.
pub open spec fn elapsed(since: u64, now: u64) -> u64 {
    if now >= since {
        (now - since) as u64
    } else {
        0
    }
}

/// A session is expired when its idle time exceeds the timeout; one that
/// never saw activity counts as expired.
pub open spec fn expired(s: SessionView, timeout: u64, now: u64) -> bool {
    match s.last_activity {
        Some(last) => elapsed(last, now) > timeout,
        None => true,
    }
}

/// A session that has authenticated always carries its email.
pub open spec fn session_consistent(s: SessionView) -> bool {
    s.authenticated ==> s.email is Some
}

/// The session `s` after `authenticate` with `email` at `now`.
pub open spec fn authenticated_as(s: SessionView, email: Seq<char>, now: u64) -> SessionView {
    SessionView {
        authenticated: true,
        email: Some(email),
        username: Some(local_part(email)),
        last_activity: Some(now),
        ..s
    }
}

proof fn lemma_local_part_prefix(s: Seq<char>, k: int)
    requires
        0 <= k <= s.len(),
        forall|j: int| 0 <= j < k ==> s[j] != '@',
    ensures
        local_part(s) == s.subrange(0, k) + local_part(s.subrange(k, s.len() as int)),
    decreases k,
{
    if k > 0 {
        lemma_local_part_prefix(s.drop_first(), k - 1);
        assert(s.drop_first().subrange(0, k - 1) == s.subrange(1, k));
        assert(s.drop_first().subrange(k - 1, s.len() - 1) == s.subrange(k, s.len() as int));
        assert(s.subrange(0, k) == seq![s[0]] + s.subrange(1, k));
    } else {
        assert(s.subrange(0, 0) + s == s);
        assert(s.subrange(0, s.len() as int) == s);
    }
}

/// The username of an email: its part before the first `@`.
pub fn local_part_of(email: &str) -> (r: String)
    ensures
        r@ == local_part(email@),
{
    let n = email.unicode_len();
    let mut i: usize = 0;
    let mut found = false;
    while i < n && !found
        invariant
            n == email@.len(),
            i <= n,
            forall|j: int| 0 <= j < i ==> email@[j] != '@',
            found ==> i < n && email@[i as int] == '@',
        decreases n - i + (if found { 0int } else { 1int }),
    {
        if email.get_char(i) == '@' {
            found = true;
        } else {
            i = i + 1;
        }
    }
    proof {
        lemma_local_part_prefix(email@, i as int);
        let rest = email@.subrange(i as int, n as int);
        if i < n {
            assert(rest[0] == '@');
        } else {
            assert(rest.len() == 0);
        }
        assert(email@.subrange(0, i as int) + Seq::<char>::empty() == email@.subrange(0, i as int));
    }
    email.substring_char(0, i).to_string()
}

fn copy_opt(o: &Option<String>) -> (r: Option<String>)
    ensures
        opt_text(r) == opt_text(*o),
{
    match o {
        Some(s) => Some(s.clone()),
        None => None,
    }
}

impl WmtpSession {
    /// A fresh unauthenticated session created at `now`.
    pub fn new_ephemeral(token: String, now: u64) -> (r: Self)
        ensures
            r@ == (SessionView {
                token: token@,
                authenticated: false,
                email: None,
                username: None,
                created_at: Some(now),
                last_activity: Some(now),
            }),
    {
        WmtpSession {
            token,
            authenticated: false,
            email: None,
            username: None,
            created_at: Some(now),
            last_activity: Some(now),
        }
    }

    /// A fresh session authenticated as `email`, created at `now`.
    pub fn new_authenticated(token: String, email: String, now: u64) -> (r: Self)
        ensures
            r@ == (SessionView {
                token: token@,
                authenticated: true,
                email: Some(email@),
                username: Some(local_part(email@)),
                created_at: Some(now),
                last_activity: Some(now),
            }),
    {
        let username = local_part_of(email.as_str());
        WmtpSession {
            token,
            authenticated: true,
            email: Some(email),
            username: Some(username),
            created_at: Some(now),
            last_activity: Some(now),
        }
    }

    /// A copy with the same value.
    pub fn snapshot(&self) -> (r: Self)
        ensures
            r@ == self@,
    {
        WmtpSession {
            token: self.token.clone(),
            authenticated: self.authenticated,
            email: copy_opt(&self.email),
            username: copy_opt(&self.username),
            created_at: self.created_at,
            last_activity: self.last_activity,
        }
    }

    /// Records activity at `now`.
    pub fn touch(&mut self, now: u64)
        ensures
            final(self)@ == (SessionView { last_activity: Some(now), ..old(self)@ }),
    {
        self.last_activity = Some(now);
    }

    /// Whether the session has been idle longer than `timeout_secs` at `now`.
    pub fn is_expired(&self, timeout_secs: u64, now: u64) -> (r: bool)
        ensures
            r == expired(self@, timeout_secs, now),
    {
        match self.last_activity {
            Some(last) => now.saturating_sub(last) > timeout_secs,
            None => true,
        }
    }

    /// Seconds since creation at `now` (zero when unknown).
    pub fn age_secs(&self, now: u64) -> (r: u64)
        ensures
            r == match self.created_at {
                Some(t) => elapsed(t, now),
                None => 0,
            },
    {
        match self.created_at {
            Some(t) => now.saturating_sub(t),
            None => 0,
        }
    }

    /// Seconds since the last activity at `now` (zero when unknown).
    pub fn idle_secs(&self, now: u64) -> (r: u64)
        ensures
            r == match self.last_activity {
                Some(t) => elapsed(t, now),
                None => 0,
            },
    {
        match self.last_activity {
            Some(t) => now.saturating_sub(t),
            None => 0,
        }
    }
}

/// Tokens of the authenticated sessions among `ss`.
pub open spec fn auth_token_set(ss: Seq<SessionView>) -> Set<Seq<char>>
    decreases ss.len(),
{
    if ss.len() == 0 {
        Set::empty()
    } else {
        let prev = auth_token_set(ss.drop_last());
        if ss.last().authenticated {
            prev.insert(ss.last().token)
        } else {
            prev
        }
    }
}

/// Number of authenticated sessions among `ss`.
pub open spec fn auth_count(ss: Seq<SessionView>) -> nat
    decreases ss.len(),
{
    if ss.len() == 0 {
        0
    } else {
        auth_count(ss.drop_last()) + if ss.last().authenticated {
            1nat
        } else {
            0nat
        }
    }
}

/// Tokens of all sessions among `ss`.
pub open spec fn token_set(ss: Seq<SessionView>) -> Set<Seq<char>>
    decreases ss.len(),
{
    if ss.len() == 0 {
        Set::empty()
    } else {
        token_set(ss.drop_last()).insert(ss.last().token)
    }
}

pub open spec fn distinct_tokens(ss: Seq<SessionView>) -> bool {
    forall|i: int, j: int| 0 <= i < ss.len() && 0 <= j < ss.len() && i != j ==> ss[i].token != ss[j].token
}

/// Tokens of the authenticated sessions of a store.
pub open spec fn authenticated_tokens(m: Map<Seq<char>, SessionView>) -> Set<Seq<char>> {
    m.dom().filter(|k: Seq<char>| m[k].authenticated)
}

/// The store after removing every session expired at `now`.
pub open spec fn unexpired(m: Map<Seq<char>, SessionView>, timeout: u64, now: u64) -> Map<
    Seq<char>,
    SessionView,
> {
    m.restrict(m.dom().filter(|k: Seq<char>| !expired(m[k], timeout, now)))
}

proof fn lemma_sets(ss: Seq<SessionView>)
    requires
        distinct_tokens(ss),
    ensures
        token_set(ss).finite(),
        token_set(ss).len() == ss.len(),
        auth_token_set(ss).finite(),
        auth_token_set(ss).len() == auth_count(ss),
        forall|k: Seq<char>|
            token_set(ss).contains(k) <==> exists|i: int| 0 <= i < ss.len() && ss[i].token == k,
        forall|k: Seq<char>|
            auth_token_set(ss).contains(k) <==> exists|i: int|
                0 <= i < ss.len() && ss[i].token == k && ss[i].authenticated,
    decreases ss.len(),
{
    if ss.len() > 0 {
        let p = ss.drop_last();
        assert(distinct_tokens(p));
        lemma_sets(p);
        let n = ss.len() - 1;
        assert forall|k: Seq<char>|
            token_set(ss).contains(k) <==> exists|i: int| 0 <= i < ss.len() && ss[i].token == k by {
            if token_set(p).contains(k) {
                let i = choose|i: int| 0 <= i < p.len() && p[i].token == k;
                assert(ss[i].token == k);
            }
            if exists|i: int| 0 <= i < ss.len() && ss[i].token == k {
                let i = choose|i: int| 0 <= i < ss.len() && ss[i].token == k;
                if i < n {
                    assert(p[i].token == k);
                }
            }
        }
        assert forall|k: Seq<char>|
            auth_token_set(ss).contains(k) <==> exists|i: int|
                0 <= i < ss.len() && ss[i].token == k && ss[i].authenticated by {
            if auth_token_set(p).contains(k) {
                let i = choose|i: int| 0 <= i < p.len() && p[i].token == k && p[i].authenticated;
                assert(ss[i].token == k && ss[i].authenticated);
            }
            if exists|i: int| 0 <= i < ss.len() && ss[i].token == k && ss[i].authenticated {
                let i = choose|i: int| 0 <= i < ss.len() && ss[i].token == k && ss[i].authenticated;
                if i < n {
                    assert(p[i].token == k && p[i].authenticated);
                }
            }
        }
        if token_set(p).contains(ss.last().token) {
            let i = choose|i: int| 0 <= i < p.len() && p[i].token == ss.last().token;
            assert(ss[i].token == ss[n].token);
        }
    }
}

/// The session store: every live session keyed by its token.
pub struct SessionStore {
    sessions: Vec<WmtpSession>,
    map: Ghost<Map<Seq<char>, SessionView>>,
}

impl View for SessionStore {
    type V = Map<Seq<char>, SessionView>;

    closed spec fn view(&self) -> Map<Seq<char>, SessionView> {
        self.map@
    }
}

impl SessionStore {
    closed spec fn entries(&self) -> Seq<SessionView> {
        self.sessions@.map_values(|s: WmtpSession| s@)
    }

    /// The store's entries agree with its map, and tokens are unique.
    pub closed spec fn wf(&self) -> bool {
        &&& forall|i: int|
            0 <= i < self.entries().len() ==> #[trigger] self.map@.contains_key(self.entries()[i].token)
                && self.map@[self.entries()[i].token] == self.entries()[i]
        &&& forall|k: Seq<char>|
            #[trigger] self.map@.contains_key(k) ==> exists|i: int|
                0 <= i < self.entries().len() && self.entries()[i].token == k
        &&& distinct_tokens(self.entries())
        &&& forall|k: Seq<char>| #[trigger] self.map@.contains_key(k) ==> self.map@[k].token == k
    }

    proof fn lemma_counts(&self)
        requires
            self.wf(),
        ensures
            self@.dom().finite(),
            self@.dom().len() == self.entries().len(),
            authenticated_tokens(self@).len() == auth_count(self.entries()),
    {
        let ss = self.entries();
        lemma_sets(ss);
        assert(self@.dom() == token_set(ss));
        assert(authenticated_tokens(self@) == auth_token_set(ss));
    }

    /// An empty store.
    pub fn new() -> (r: Self)
        ensures
            r.wf(),
            r@ == Map::<Seq<char>, SessionView>::empty(),
    {
        SessionStore { sessions: Vec::new(), map: Ghost(Map::empty()) }
    }

    fn find(&self, token: &str) -> (r: Option<usize>)
        requires
            self.wf(),
        ensures
            match r {
                Some(i) => i < self.entries().len() && self.entries()[i as int].token == token@,
                None => !self@.contains_key(token@),
            },
    {
        let key = token.to_string();
        let mut i: usize = 0;
        while i < self.sessions.len()
            invariant
                key@ == token@,
                i <= self.sessions@.len(),
                forall|j: int| 0 <= j < i ==> self.entries()[j].token != token@,
            decreases self.sessions@.len() - i,
        {
            if self.sessions[i].token == key {
                return Some(i);
            }
            i = i + 1;
        }
        None
    }

    /// Stores `session` under its token, replacing any session there.
    pub fn insert(&mut self, session: WmtpSession)
        requires
            old(self).wf(),
        ensures
            final(self).wf(),
            final(self)@ == old(self)@.insert(session@.token, session@),
    {
        let ghost v = session@;
        let ghost old_entries = self.entries();
        match self.find(session.token.as_str()) {
            Some(i) => {
                self.sessions.set(i, session);
                self.map = Ghost(self.map@.insert(v.token, v));
                assert(self.entries() == old_entries.update(i as int, v));
                assert(old_entries[i as int].token == v.token);
                assert forall|j: int| 0 <= j < self.entries().len() implies #[trigger] self.map@.contains_key(
                    self.entries()[j].token,
                ) && self.map@[self.entries()[j].token] == self.entries()[j] by {
                    if j != i {
                        assert(old_entries[j].token != v.token);
                    }
                }
                assert forall|k: Seq<char>| #[trigger] self.map@.contains_key(k) implies exists|j: int|
                    0 <= j < self.entries().len() && self.entries()[j].token == k by {
                    if k == v.token {
                        assert(self.entries()[i as int].token == k);
                    } else {
                        let j = choose|j: int| 0 <= j < old_entries.len() && old_entries[j].token == k;
                        assert(self.entries()[j].token == k);
                    }
                }
                assert(distinct_tokens(self.entries())) by {
                    assert forall|a: int, b: int|
                        0 <= a < self.entries().len() && 0 <= b < self.entries().len() && a != b
                        implies self.entries()[a].token != self.entries()[b].token by {
                        assert(self.entries()[a].token == old_entries[a].token);
                        assert(self.entries()[b].token == old_entries[b].token);
                    }
                }
            },
            None => {
                self.sessions.push(session);
                self.map = Ghost(self.map@.insert(v.token, v));
                assert(self.entries() == old_entries.push(v));
                assert forall|k: Seq<char>| #[trigger] self.map@.contains_key(k) implies exists|i: int|
                    0 <= i < self.entries().len() && self.entries()[i].token == k by {
                    if k == v.token {
                        assert(self.entries()[old_entries.len() as int].token == k);
                    } else {
                        let i = choose|i: int| 0 <= i < old_entries.len() && old_entries[i].token == k;
                        assert(self.entries()[i].token == k);
                    }
                }
            },
        }
    }

    /// A copy of the session under `token`.
    pub fn get(&self, token: &str) -> (r: Option<WmtpSession>)
        requires
            self.wf(),
        ensures
            match r {
                Some(s) => self@.contains_key(token@) && s@ == self@[token@] && s@.token == token@,
                None => !self@.contains_key(token@),
            },
    {
        match self.find(token) {
            Some(i) => Some(self.sessions[i].snapshot()),
            None => None,
        }
    }

    /// Whether a session is stored under `token`.
    pub fn contains(&self, token: &str) -> (r: bool)
        requires
            self.wf(),
        ensures
            r == self@.contains_key(token@),
    {
        self.find(token).is_some()
    }

    /// Removes and returns the session under `token`.
    pub fn remove(&mut self, token: &str) -> (r: Option<WmtpSession>)
        requires
            old(self).wf(),
        ensures
            final(self).wf(),
            final(self)@ == old(self)@.remove(token@),
            match r {
                Some(s) => old(self)@.contains_key(token@) && s@ == old(self)@[token@],
                None => !old(self)@.contains_key(token@),
            },
    {
        let ghost old_entries = self.entries();
        match self.find(token) {
            Some(i) => {
                let s = self.sessions.remove(i);
                assert(old_entries[i as int] == s@);
                assert(self.map@.contains_key(old_entries[i as int].token));
                self.map = Ghost(self.map@.remove(token@));
                assert(self.entries() == old_entries.remove(i as int));
                assert forall|j: int| 0 <= j < self.entries().len() implies #[trigger] self.map@.contains_key(
                    self.entries()[j].token,
                ) && self.map@[self.entries()[j].token] == self.entries()[j] by {
                    let t = if j < i { j } else { j + 1 };
                    assert(self.entries()[j] == old_entries[t]);
                    assert(old_entries[t].token != old_entries[i as int].token);
                }
                assert(distinct_tokens(self.entries())) by {
                    assert forall|a: int, b: int|
                        0 <= a < self.entries().len() && 0 <= b < self.entries().len() && a != b
                        implies self.entries()[a].token != self.entries()[b].token by {
                        let ta = if a < i { a } else { a + 1 };
                        let tb = if b < i { b } else { b + 1 };
                        assert(self.entries()[a] == old_entries[ta]);
                        assert(self.entries()[b] == old_entries[tb]);
                    }
                }
                assert forall|k: Seq<char>| #[trigger] self.map@.contains_key(k) implies exists|j: int|
                    0 <= j < self.entries().len() && self.entries()[j].token == k by {
                    let j = choose|j: int| 0 <= j < old_entries.len() && old_entries[j].token == k;
                    if j < i {
                        assert(self.entries()[j].token == k);
                    } else {
                        assert(self.entries()[j - 1].token == k);
                    }
                }
                Some(s)
            },
            None => {
                assert(self.map@.remove(token@) =~= self.map@);
                None
            },
        }
    }

    /// Removes every session expired at `now`; returns how many went.
    pub fn retain_unexpired(&mut self, timeout: u64, now: u64) -> (r: usize)
        requires
            old(self).wf(),
        ensures
            final(self).wf(),
            final(self)@ == unexpired(old(self)@, timeout, now),
            r == old(self)@.len() - final(self)@.len(),
    {
        let ghost old_map = self.map@;
        let ghost old_entries = self.entries();
        let ghost target = unexpired(old_map, timeout, now);
        let mut kept: Vec<WmtpSession> = Vec::new();
        let mut i: usize = 0;
        while i < self.sessions.len()
            invariant
                self.wf(),
                self.map@ == old_map,
                self.entries() == old_entries,
                i <= old_entries.len(),
                kept@.len() <= i,
                forall|j: int|
                    0 <= j < kept@.len() ==> exists|t: int|
                        0 <= t < i && old_entries[t] == #[trigger] kept@[j]@,
                forall|j: int|
                    0 <= j < kept@.len() ==> !expired(#[trigger] kept@[j]@, timeout, now),
                forall|t: int|
                    0 <= t < i && !expired(old_entries[t], timeout, now) ==> exists|j: int|
                        0 <= j < kept@.len() && #[trigger] kept@[j]@ == old_entries[t],
                distinct_tokens(kept@.map_values(|s: WmtpSession| s@)),
            decreases old_entries.len() - i,
        {
            if !self.sessions[i].is_expired(timeout, now) {
                let s = self.sessions[i].snapshot();
                let ghost before = kept@;
                kept.push(s);
                proof {
                    assert(kept@[before.len() as int]@ == old_entries[i as int]);
                    assert forall|j: int| 0 <= j < before.len() implies kept@[j]@.token
                        != old_entries[i as int].token by {
                        assert(kept@[j] == before[j]);
                        let t = choose|t: int| 0 <= t < i && old_entries[t] == before[j]@;
                    }
                    let ks = kept@.map_values(|s: WmtpSession| s@);
                    assert forall|a: int, b: int|
                        0 <= a < ks.len() && 0 <= b < ks.len() && a != b implies ks[a].token
                        != ks[b].token by {
                        if a < before.len() && b < before.len() {
                            assert(kept@[a] == before[a]);
                            assert(kept@[b] == before[b]);
                            assert(before.map_values(|s: WmtpSession| s@)[a] == before[a]@);
                            assert(before.map_values(|s: WmtpSession| s@)[b] == before[b]@);
                        }
                    }
                    assert forall|j: int| 0 <= j < kept@.len() implies exists|t: int|
                        0 <= t < i + 1 && old_entries[t] == #[trigger] kept@[j]@ by {
                        if j < before.len() {
                            assert(kept@[j] == before[j]);
                        }
                    }
                    assert forall|t: int|
                        0 <= t < i + 1 && !expired(old_entries[t], timeout, now) implies exists|j: int|
                        0 <= j < kept@.len() && #[trigger] kept@[j]@ == old_entries[t] by {
                        if t < i {
                            let j = choose|j: int| 0 <= j < before.len() && before[j]@ == old_entries[t];
                            assert(kept@[j] == before[j]);
                        }
                    }
                }
            }
            i = i + 1;
        }
        let removed: usize = self.sessions.len() - kept.len();
        proof {
            self.lemma_counts();
        }
        self.sessions = kept;
        self.map = Ghost(target);
        proof {
            let es = self.entries();
            assert forall|j: int| 0 <= j < es.len() implies #[trigger] self.map@.contains_key(es[j].token)
                && self.map@[es[j].token] == es[j] by {
                let t = choose|t: int| 0 <= t < old_entries.len() && old_entries[t] == self.sessions@[j]@;
                assert(old_map.contains_key(old_entries[t].token));
            }
            assert forall|k: Seq<char>| #[trigger] self.map@.contains_key(k) implies exists|j: int|
                0 <= j < es.len() && es[j].token == k by {
                let t = choose|t: int| 0 <= t < old_entries.len() && old_entries[t].token == k;
                let j = choose|j: int| 0 <= j < self.sessions@.len() && #[trigger] self.sessions@[j]@ == old_entries[t];
                assert(es[j].token == k);
            }
            self.lemma_counts();
        }
        removed
    }

    /// The length of the longest stored token.
    pub fn longest_token_len(&self) -> (r: usize)
        requires
            self.wf(),
        ensures
            forall|k: Seq<char>| #[trigger] self@.contains_key(k) ==> k.len() <= r,
    {
        let mut r: usize = 0;
        let mut i: usize = 0;
        while i < self.sessions.len()
            invariant
                i <= self.entries().len(),
                forall|j: int| 0 <= j < i ==> #[trigger] self.entries()[j].token.len() <= r,
            decreases self.entries().len() - i,
        {
            let n = self.sessions[i].token.as_str().unicode_len();
            if n > r {
                r = n;
            }
            i = i + 1;
        }
        proof {
            assert forall|k: Seq<char>| #[trigger] self@.contains_key(k) implies k.len() <= r by {
                let j = choose|j: int| 0 <= j < self.entries().len() && self.entries()[j].token == k;
            }
        }
        r
    }

    /// Every session is stored under its own token.
    pub proof fn lemma_keys_are_tokens(&self)
        requires
            self.wf(),
        ensures
            forall|k: Seq<char>| #[trigger] self@.contains_key(k) ==> self@[k].token == k,
    {
    }

    /// Number of stored sessions.
    pub fn len(&self) -> (r: usize)
        requires
            self.wf(),
        ensures
            r == self@.len(),
    {
        proof {
            self.lemma_counts();
        }
        self.sessions.len()
    }

    /// Number of stored sessions that have authenticated.
    pub fn authenticated_len(&self) -> (r: usize)
        requires
            self.wf(),
        ensures
            r == authenticated_tokens(self@).len(),
    {
        let mut count: usize = 0;
        let mut i: usize = 0;
        while i < self.sessions.len()
            invariant
                i <= self.entries().len(),
                count == auth_count(self.entries().subrange(0, i as int)),
                count <= i,
            decreases self.entries().len() - i,
        {
            assert(self.entries().subrange(0, i + 1).drop_last() == self.entries().subrange(0, i as int));
            if self.sessions[i].authenticated {
                count = count + 1;
            }
            i = i + 1;
        }
        proof {
            assert(self.entries().subrange(0, i as int) == self.entries());
            self.lemma_counts();
        }
        count
    }

    /// Copies of all stored sessions.
    pub fn values(&self) -> (r: Vec<WmtpSession>)
        requires
            self.wf(),
        ensures
            r@.len() == self@.len(),
            forall|k: Seq<char>| #[trigger] self@.contains_key(k) ==> exists|j: int|
                0 <= j < r@.len() && r@[j]@ == self@[k],
            forall|j: int| 0 <= j < r@.len() ==> self@.contains_key(#[trigger] r@[j]@.token)
                && self@[r@[j]@.token] == r@[j]@,
    {
        let mut out: Vec<WmtpSession> = Vec::new();
        let mut i: usize = 0;
        while i < self.sessions.len()
            invariant
                i <= self.entries().len(),
                out@.len() == i,
                forall|j: int| 0 <= j < i ==> #[trigger] out@[j]@ == self.entries()[j],
            decreases self.entries().len() - i,
        {
            out.push(self.sessions[i].snapshot());
            i = i + 1;
        }
        proof {
            self.lemma_counts();
            assert forall|k: Seq<char>| #[trigger] self@.contains_key(k) implies exists|j: int|
                0 <= j < out@.len() && out@[j]@ == self@[k] by {
                let j = choose|j: int| 0 <= j < self.entries().len() && self.entries()[j].token == k;
                assert(out@[j]@ == self.entries()[j]);
            }
        }
        out
    }
}

/// An empty session store.
pub fn create_session_store() -> (r: SessionStore)
    ensures
        r.wf(),
        r@ == Map::<Seq<char>, SessionView>::empty(),
{
    SessionStore::new()
}

/// The session store together with the idle timeout that expires sessions.
pub struct SessionManager {
    store: SessionStore,
    session_timeout: u64,
}

impl View for SessionManager {
    type V = Map<Seq<char>, SessionView>;

    closed spec fn view(&self) -> Map<Seq<char>, SessionView> {
        self.store@
    }
}

impl SessionManager {
    pub closed spec fn wf(&self) -> bool {
        self.store.wf()
    }

    /// The idle timeout in seconds.
    pub closed spec fn timeout(&self) -> u64 {
        self.session_timeout
    }

    /// A manager over `store` that expires sessions idle for more than
    /// `timeout_secs` seconds.
    pub fn new(store: SessionStore, timeout_secs: u64) -> (r: Self)
        requires
            store.wf(),
        ensures
            r.wf(),
            r@ == store@,
            r.timeout() == timeout_secs,
    {
        SessionManager { store, session_timeout: timeout_secs }
    }

    /// The idle timeout in seconds.
    pub fn session_timeout(&self) -> (r: u64)
        ensures
            r == self.timeout(),
    {
        self.session_timeout
    }

    /// Stores `session` under its token, replacing any session there.
    pub fn insert(&mut self, session: WmtpSession)
        requires
            old(self).wf(),
        ensures
            final(self).wf(),
            final(self).timeout() == old(self).timeout(),
            final(self)@ == old(self)@.insert(session@.token, session@),
    {
        self.store.insert(session);
    }

    /// A copy of the session under `token`.
    pub fn get(&self, token: &str) -> (r: Option<WmtpSession>)
        requires
            self.wf(),
        ensures
            match r {
                Some(s) => self@.contains_key(token@) && s@ == self@[token@] && s@.token == token@,
                None => !self@.contains_key(token@),
            },
    {
        self.store.get(token)
    }

    /// Whether a session is stored under `token`.
    pub fn contains(&self, token: &str) -> (r: bool)
        requires
            self.wf(),
        ensures
            r == self@.contains_key(token@),
    {
        self.store.contains(token)
    }

    /// Records activity at `now` on the session under `token`; false when
    /// there is none.
    pub fn touch(&mut self, token: &str, now: u64) -> (r: bool)
        requires
            old(self).wf(),
        ensures
            final(self).wf(),
            final(self).timeout() == old(self).timeout(),
            r == old(self)@.contains_key(token@),
            r ==> final(self)@ == old(self)@.insert(
                token@,
                SessionView { last_activity: Some(now), ..old(self)@[token@] },
            ),
            r ==> final(self)@[token@].token == token@,
            !r ==> final(self)@ == old(self)@,
    {
        match self.store.get(token) {
            Some(mut s) => {
                s.touch(now);
                self.store.insert(s);
                true
            },
            None => false,
        }
    }

    /// Marks the session under `token` as authenticated as `email`, with the
    /// username taken from the email, and records activity at `now`; false
    /// when there is no such session.
    pub fn authenticate(&mut self, token: &str, email: String, now: u64) -> (r: bool)
        requires
            old(self).wf(),
        ensures
            final(self).wf(),
            final(self).timeout() == old(self).timeout(),
            r == old(self)@.contains_key(token@),
            r ==> final(self)@ == old(self)@.insert(
                token@,
                authenticated_as(old(self)@[token@], email@, now),
            ),
            r ==> final(self)@[token@].token == token@,
            !r ==> final(self)@ == old(self)@,
    {
        match self.store.get(token) {
            Some(mut s) => {
                s.authenticated = true;
                s.username = Some(local_part_of(email.as_str()));
                s.email = Some(email);
                s.touch(now);
                self.store.insert(s);
                true
            },
            None => false,
        }
    }

    /// Removes and returns the session under `token`.
    pub fn remove(&mut self, token: &str) -> (r: Option<WmtpSession>)
        requires
            old(self).wf(),
        ensures
            final(self).wf(),
            final(self).timeout() == old(self).timeout(),
            final(self)@ == old(self)@.remove(token@),
            match r {
                Some(s) => old(self)@.contains_key(token@) && s@ == old(self)@[token@],
                None => !old(self)@.contains_key(token@),
            },
    {
        self.store.remove(token)
    }

    /// Removes every session idle for longer than the timeout at `now`;
    /// returns how many were removed.
    pub fn cleanup_expired(&mut self, now: u64) -> (r: usize)
        requires
            old(self).wf(),
        ensures
            final(self).wf(),
            final(self).timeout() == old(self).timeout(),
            final(self)@ == unexpired(old(self)@, old(self).timeout(), now),
            r == old(self)@.len() - final(self)@.len(),
    {
        self.store.retain_unexpired(self.session_timeout, now)
    }

    /// The length of the longest stored token.
    pub fn longest_token_len(&self) -> (r: usize)
        requires
            self.wf(),
        ensures
            forall|k: Seq<char>| #[trigger] self@.contains_key(k) ==> k.len() <= r,
    {
        self.store.longest_token_len()
    }

    /// Every session is stored under its own token.
    pub proof fn lemma_keys_are_tokens(&self)
        requires
            self.wf(),
        ensures
            forall|k: Seq<char>| #[trigger] self@.contains_key(k) ==> self@[k].token == k,
    {
        self.store.lemma_keys_are_tokens();
    }

    /// Number of stored sessions.
    pub fn active_count(&self) -> (r: usize)
        requires
            self.wf(),
        ensures
            r == self@.len(),
    {
        self.store.len()
    }

    /// Number of stored sessions that have authenticated.
    pub fn authenticated_count(&self) -> (r: usize)
        requires
            self.wf(),
        ensures
            r == authenticated_tokens(self@).len(),
    {
        self.store.authenticated_len()
    }

    /// Copies of all stored sessions.
    pub fn list_all(&self) -> (r: Vec<WmtpSession>)
        requires
            self.wf(),
        ensures
            r@.len() == self@.len(),
            forall|k: Seq<char>| #[trigger] self@.contains_key(k) ==> exists|j: int|
                0 <= j < r@.len() && r@[j]@ == self@[k],
            forall|j: int| 0 <= j < r@.len() ==> self@.contains_key(#[trigger] r@[j]@.token)
                && self@[r@[j]@.token] == r@[j]@,
    {
        self.store.values()
    }
}

/// Storing a session and then looking up its token finds that session.
pub proof fn lemma_insert_then_get(m: Map<Seq<char>, SessionView>, s: SessionView)
    ensures
        m.insert(s.token, s).contains_key(s.token),
        m.insert(s.token, s)[s.token] == s,
{
}

/// A touched session has been idle for no time at the moment of the touch,
/// is not expired then under any timeout, and keeps its creation time.
pub proof fn lemma_touch_resets_idle(s: SessionView, now: u64, timeout: u64)
    ensures
        ({
            let t = SessionView { last_activity: Some(now), ..s };
            &&& t.created_at == s.created_at
            &&& t.token == s.token
            &&& elapsed(now, now) == 0
            &&& !expired(t, timeout, now)
        }),
{
}

/// Authenticating a session sets the flag, the email and the username
/// derived from that email together, and keeps its token and creation time.
pub proof fn lemma_authenticate_consistent(s: SessionView, email: Seq<char>, now: u64)
    ensures
        ({
            let a = authenticated_as(s, email, now);
            &&& a.authenticated
            &&& a.email == Some(email)
            &&& a.username == Some(local_part(email))
            &&& session_consistent(a)
            &&& a.token == s.token
            &&& a.created_at == s.created_at
        }),
{
}

/// After removing a token, looking it up finds nothing.
pub proof fn lemma_remove_then_get(m: Map<Seq<char>, SessionView>, token: Seq<char>)
    ensures
        !m.remove(token).contains_key(token),
{
}

/// The sweep keeps, unchanged, every session active within the timeout, and
/// removes every session idle strictly longer.
pub proof fn lemma_cleanup_window(
    m: Map<Seq<char>, SessionView>,
    timeout: u64,
    now: u64,
    token: Seq<char>,
)
    requires
        m.contains_key(token),
    ensures
        (m[token].last_activity matches Some(last) && elapsed(last, now) <= timeout) ==> unexpired(
            m,
            timeout,
            now,
        ).contains_key(token) && unexpired(m, timeout, now)[token] == m[token],
        (m[token].last_activity matches Some(last) && elapsed(last, now) > timeout) ==> !unexpired(
            m,
            timeout,
            now,
        ).contains_key(token),
{
}

} // verus!
